//! Chat session management: sessions track conversation state with notebooks.

use vstd::prelude::*;

use crate::clock::now_micros;
use crate::error::NotebookLmError;
use crate::lookup::{first_index_of, lemma_first_index_is, lemma_first_index_none, lemma_first_index_of};
use crate::library::opt_chars;
use crate::types::Session;

verus! {

/// In-memory session store.
#[derive(Debug)]
pub struct SessionStore {
    /// All sessions, oldest first.
    pub sessions: Vec<Session>,
}

/// Abstract session store: the sessions in order.
pub struct SessionStoreView {
    pub sessions: Seq<Session>,
}

impl View for SessionStore {
    type V = SessionStoreView;

    open spec fn view(&self) -> SessionStoreView {
        SessionStoreView { sessions: self.sessions@ }
    }
}

/// The identifiers of the sessions, in order.
pub open spec fn session_ids(ss: Seq<Session>) -> Seq<Seq<char>> {
    ss.map_values(|s: Session| s.id@)
}

/// The notebook identifiers of the sessions, in order.
pub open spec fn session_notebooks(ss: Seq<Session>) -> Seq<Seq<char>> {
    ss.map_values(|s: Session| s.notebook_id@)
}

/// `e` reports that no session has identifier `id`.
pub open spec fn is_session_not_found(e: NotebookLmError, id: Seq<char>) -> bool {
    e matches NotebookLmError::SessionNotFound(s) && s@ == id
}

/// `s` is a session just opened for `notebook_id` at time `now`.
pub open spec fn is_fresh_session(s: Session, notebook_id: Seq<char>, now: i64) -> bool {
    &&& s.notebook_id@ == notebook_id
    &&& s.message_count == 0
    &&& s.created_at == now
    &&& s.last_activity == now
}

/// `id` has the shape of a session identifier: 36 characters, hyphens at
/// positions 8, 13, 18 and 23.
pub open spec fn is_session_id_shape(id: Seq<char>) -> bool {
    &&& id.len() == 36
    &&& id[8] == '-'
    &&& id[13] == '-'
    &&& id[18] == '-'
    &&& id[23] == '-'
}

/// A lowercase hexadecimal digit.
pub open spec fn is_lower_hex_digit(c: char) -> bool {
    ('0' <= c <= '9') || ('a' <= c <= 'f')
}

/// `id` is the hyphenated form of a random (version 4, RFC 4122 variant)
/// identifier: its shape, lowercase hexadecimal digits elsewhere, the version
/// digit `4` at position 14 and a variant digit `8`, `9`, `a` or `b` at position 19.
pub open spec fn is_v4_session_id(id: Seq<char>) -> bool {
    &&& is_session_id_shape(id)
    &&& forall|i: int|
        0 <= i < 36 && i != 8 && i != 13 && i != 18 && i != 23 ==> is_lower_hex_digit(
            #[trigger] id[i],
        )
    &&& id[14] == '4'
    &&& (id[19] == '8' || id[19] == '9' || id[19] == 'a' || id[19] == 'b')
}

/// A new random (version 4) session identifier: `nexcore_id::NexId::v4`
/// rendered through its `Display`, which writes the 16 bytes as two lowercase
/// hexadecimal digits each with a hyphen before bytes 4, 6, 8 and 10. The bytes
/// are random except that `v4` sets the high nibble of byte 6 to 4 and the top
/// two bits of byte 8 to `10`.
#[verifier::external_body]
fn new_session_id() -> (id: String)
    ensures
        is_v4_session_id(id@),
{
    nexcore_id::NexId::v4().to_string()
}

impl SessionStoreView {
    /// Position of the first session with identifier `id`.
    pub open spec fn position(self, id: Seq<char>) -> Option<int> {
        first_index_of(session_ids(self.sessions), id)
    }

    /// The first session with identifier `id`.
    pub open spec fn lookup(self, id: Seq<char>) -> Option<Session> {
        match self.position(id) {
            Some(i) => Some(self.sessions[i]),
            None => None,
        }
    }

    /// Position of the first session for notebook `notebook_id`.
    pub open spec fn session_for(self, notebook_id: Seq<char>) -> Option<int> {
        first_index_of(session_notebooks(self.sessions), notebook_id)
    }

    /// The identifier of the first session for notebook `notebook_id`.
    pub open spec fn existing_session_id(self, notebook_id: Seq<char>) -> Option<Seq<char>> {
        match self.session_for(notebook_id) {
            Some(k) => Some(self.sessions[k].id@),
            None => None,
        }
    }

    /// The store with one more session.
    pub open spec fn with_session(self, s: Session) -> SessionStoreView {
        SessionStoreView { sessions: self.sessions.push(s) }
    }

    /// The store with the session at `k` replaced.
    pub open spec fn with_replaced(self, k: int, s: Session) -> SessionStoreView {
        SessionStoreView { sessions: self.sessions.update(k, s) }
    }

    /// The store without the session at `k`.
    pub open spec fn without(self, k: int) -> SessionStoreView {
        SessionStoreView { sessions: self.sessions.remove(k) }
    }

    /// No two sessions share an identifier.
    pub open spec fn ids_unique(self) -> bool {
        forall|i: int, j: int|
            0 <= i < self.sessions.len() && 0 <= j < self.sessions.len() && i != j
                ==> self.sessions[i].id@ != self.sessions[j].id@
    }

    /// The message counter of the session `id` (its first match) can grow.
    pub open spec fn can_record(self, id: Seq<char>) -> bool {
        self.position(id) matches Some(k) ==> self.sessions[k].message_count < u32::MAX
    }

    /// The position is the least index holding `id`, and absent when none does.
    pub proof fn lemma_position(self, id: Seq<char>)
        ensures
            match self.position(id) {
                Some(k) => 0 <= k < self.sessions.len() && self.sessions[k].id@ == id && forall|
                    j: int,
                | 0 <= j < k ==> self.sessions[j].id@ != id,
                None => forall|j: int| 0 <= j < self.sessions.len() ==> self.sessions[j].id@ != id,
            },
    {
        let keys = session_ids(self.sessions);
        lemma_first_index_of(keys, id);
        match self.position(id) {
            Some(k) => {
                assert(keys[k] == self.sessions[k].id@);
                assert forall|j: int| 0 <= j < k implies self.sessions[j].id@ != id by {
                    assert(keys[j] == self.sessions[j].id@);
                }
            },
            None => {
                assert forall|j: int| 0 <= j < self.sessions.len() implies self.sessions[j].id@
                    != id by {
                    assert(keys[j] == self.sessions[j].id@);
                }
            },
        }
    }

    /// The first session for a notebook is the least index holding it.
    pub proof fn lemma_session_for(self, notebook_id: Seq<char>)
        ensures
            match self.session_for(notebook_id) {
                Some(k) => 0 <= k < self.sessions.len() && self.sessions[k].notebook_id@
                    == notebook_id && forall|j: int|
                    0 <= j < k ==> self.sessions[j].notebook_id@ != notebook_id,
                None => forall|j: int|
                    0 <= j < self.sessions.len() ==> self.sessions[j].notebook_id@ != notebook_id,
            },
    {
        let keys = session_notebooks(self.sessions);
        lemma_first_index_of(keys, notebook_id);
        match self.session_for(notebook_id) {
            Some(k) => {
                assert(keys[k] == self.sessions[k].notebook_id@);
                assert forall|j: int| 0 <= j < k implies self.sessions[j].notebook_id@
                    != notebook_id by {
                    assert(keys[j] == self.sessions[j].notebook_id@);
                }
            },
            None => {
                assert forall|j: int| 0 <= j < self.sessions.len() implies self.sessions[j].notebook_id@
                    != notebook_id by {
                    assert(keys[j] == self.sessions[j].notebook_id@);
                }
            },
        }
    }
}

/// What `get_or_create` leaves and returns: the store holds a session for the
/// notebook and `sid` is the identifier of its first one; an existing session
/// leaves the store as it was, and otherwise exactly one fresh session is added.
pub open spec fn get_or_create_post(
    before: SessionStoreView,
    after: SessionStoreView,
    notebook_id: Seq<char>,
    sid: Seq<char>,
) -> bool {
    &&& after.existing_session_id(notebook_id) == Some(sid)
    &&& before.existing_session_id(notebook_id) is Some ==> after == before
    &&& before.existing_session_id(notebook_id) is None ==> {
        &&& after.sessions.len() == before.sessions.len() + 1
        &&& after.sessions.drop_last() == before.sessions
        &&& is_fresh_session(after.sessions.last(), notebook_id, after.sessions.last().created_at)
        &&& after.sessions.last().created_at >= 0
        &&& is_v4_session_id(sid)
    }
}

/// The session with one more message, active at `now`.
pub open spec fn with_message(s: Session, now: i64) -> Session {
    Session { message_count: (s.message_count + 1) as u32, last_activity: now, ..s }
}

/// The session with its message count cleared, active at `now`.
pub open spec fn with_reset(s: Session, now: i64) -> Session {
    Session { message_count: 0, last_activity: now, ..s }
}

impl Default for SessionStore {
    fn default() -> (r: Self)
        ensures
            r@.sessions == Seq::<Session>::empty(),
    {
        SessionStore { sessions: Vec::new() }
    }
}

impl SessionStore {
    /// Position of the first session whose identifier equals `key`.
    fn position_of(&self, key: &String) -> (r: Option<usize>)
        ensures
            match r {
                Some(i) => i < self@.sessions.len() && self@.position(key@) == Some(i as int),
                None => self@.position(key@) is None,
            },
    {
        let ghost keys = session_ids(self.sessions@);
        let mut i: usize = 0;
        while i < self.sessions.len()
            invariant
                keys == session_ids(self.sessions@),
                i <= self.sessions@.len(),
                forall|j: int| 0 <= j < i ==> keys[j] != key@,
            decreases self.sessions@.len() - i,
        {
            if self.sessions[i].id == *key {
                proof {
                    lemma_first_index_is(keys, key@, i as int);
                }
                return Some(i);
            }
            assert(keys[i as int] == self.sessions@[i as int].id@);
            i = i + 1;
        }
        proof {
            lemma_first_index_none(keys, key@);
        }
        None
    }

    /// Position of the first session for the notebook `key`.
    fn session_for_notebook(&self, key: &String) -> (r: Option<usize>)
        ensures
            match r {
                Some(i) => i < self@.sessions.len() && self@.session_for(key@) == Some(i as int),
                None => self@.session_for(key@) is None,
            },
    {
        let ghost keys = session_notebooks(self.sessions@);
        let mut i: usize = 0;
        while i < self.sessions.len()
            invariant
                keys == session_notebooks(self.sessions@),
                i <= self.sessions@.len(),
                forall|j: int| 0 <= j < i ==> keys[j] != key@,
            decreases self.sessions@.len() - i,
        {
            if self.sessions[i].notebook_id == *key {
                proof {
                    lemma_first_index_is(keys, key@, i as int);
                }
                return Some(i);
            }
            assert(keys[i as int] == self.sessions@[i as int].notebook_id@);
            i = i + 1;
        }
        proof {
            lemma_first_index_none(keys, key@);
        }
        None
    }

    /// Open a session with identifier `id` for a notebook at time `now`; returns it.
    pub fn create_with(&mut self, id: String, notebook_id: &str, now: i64) -> (r: &Session)
        ensures
            final(self)@ == old(self)@.with_session(*r),
            r.id == id,
            is_fresh_session(*r, notebook_id@, now),
    {
        let session = Session {
            id,
            notebook_id: String::from_str(notebook_id),
            message_count: 0,
            created_at: now,
            last_activity: now,
        };
        self.sessions.push(session);
        let last = self.sessions.len() - 1;
        &self.sessions[last]
    }

    /// Create a new session for a notebook, with a fresh random identifier and
    /// the current time.
    pub fn create(&mut self, notebook_id: &str) -> (r: Result<&Session, NotebookLmError>)
        ensures
            match r {
                Ok(s) => {
                    &&& final(self)@ == old(self)@.with_session(*s)
                    &&& is_v4_session_id(s.id@)
                    &&& is_fresh_session(*s, notebook_id@, s.created_at)
                    &&& s.created_at >= 0
                },
                Err(_) => false,
            },
    {
        let now = now_micros();
        let id = new_session_id();
        Ok(self.create_with(id, notebook_id, now))
    }

    /// Get a session by ID.
    pub fn get(&self, id: &str) -> (r: Result<&Session, NotebookLmError>)
        ensures
            match r {
                Ok(s) => self@.lookup(id@) == Some(*s),
                Err(e) => self@.lookup(id@) is None && is_session_not_found(e, id@),
            },
    {
        let key = String::from_str(id);
        match self.position_of(&key) {
            Some(i) => Ok(&self.sessions[i]),
            None => Err(NotebookLmError::SessionNotFound(key)),
        }
    }

    /// Get or create a session for a notebook: the identifier of its first
    /// session, or of a new one when it has none.
    pub fn get_or_create(&mut self, notebook_id: &str) -> (r: Result<String, NotebookLmError>)
        ensures
            match r {
                Ok(sid) => get_or_create_post(old(self)@, final(self)@, notebook_id@, sid@),
                Err(_) => false,
            },
    {
        let key = String::from_str(notebook_id);
        match self.session_for_notebook(&key) {
            Some(k) => {
                return Ok(self.sessions[k].id.clone());
            },
            None => {},
        }
        let ghost before = self@;
        let created = self.create(notebook_id);
        match created {
            Ok(s) => {
                let sid = s.id.clone();
                proof {
                    let after = self@;
                    let keys = session_notebooks(after.sessions);
                    assert(after.sessions.drop_last() == before.sessions);
                    before.lemma_session_for(notebook_id@);
                    assert forall|j: int| 0 <= j < after.sessions.len() - 1 implies keys[j]
                        != notebook_id@ by {
                        assert(after.sessions[j] == before.sessions[j]);
                    }
                    lemma_first_index_is(keys, notebook_id@, after.sessions.len() - 1);
                }
                Ok(sid)
            },
            Err(e) => Err(e),
        }
    }
    /// Record a message exchange in a session at time `now`.
    pub fn record_message_at(&mut self, session_id: &str, now: i64) -> (r: Result<
        (),
        NotebookLmError,
    >)
        requires
            old(self)@.can_record(session_id@),
        ensures
            match r {
                Ok(()) => {
                    &&& old(self)@.position(session_id@) matches Some(k)
                    &&& final(self)@ == old(self)@.with_replaced(
                        k,
                        with_message(old(self)@.sessions[k], now),
                    )
                },
                Err(e) => {
                    &&& old(self)@.position(session_id@) is None
                    &&& final(self)@ == old(self)@
                    &&& is_session_not_found(e, session_id@)
                },
            },
    {
        let key = String::from_str(session_id);
        let pos = match self.position_of(&key) {
            Some(p) => p,
            None => {
                return Err(NotebookLmError::SessionNotFound(key));
            },
        };
        let s = &mut self.sessions[pos];
        s.message_count = s.message_count + 1;
        s.last_activity = now;
        Ok(())
    }

    /// Record a message exchange in a session, at the current time.
    pub fn record_message(&mut self, session_id: &str) -> (r: Result<(), NotebookLmError>)
        requires
            old(self)@.can_record(session_id@),
        ensures
            match r {
                Ok(()) => {
                    &&& old(self)@.position(session_id@) matches Some(k)
                    &&& final(self)@.sessions[k].last_activity >= 0
                    &&& final(self)@ == old(self)@.with_replaced(
                        k,
                        with_message(old(self)@.sessions[k], final(self)@.sessions[k].last_activity),
                    )
                },
                Err(e) => {
                    &&& old(self)@.position(session_id@) is None
                    &&& final(self)@ == old(self)@
                    &&& is_session_not_found(e, session_id@)
                },
            },
    {
        let now = now_micros();
        proof {
            old(self)@.lemma_position(session_id@);
        }
        self.record_message_at(session_id, now)
    }

    /// Close (remove) a session, returning it.
    pub fn close(&mut self, id: &str) -> (r: Result<Session, NotebookLmError>)
        ensures
            match r {
                Ok(s) => {
                    &&& old(self)@.position(id@) matches Some(k)
                    &&& s == old(self)@.sessions[k]
                    &&& final(self)@ == old(self)@.without(k)
                },
                Err(e) => {
                    &&& old(self)@.position(id@) is None
                    &&& final(self)@ == old(self)@
                    &&& is_session_not_found(e, id@)
                },
            },
    {
        let key = String::from_str(id);
        let pos = match self.position_of(&key) {
            Some(p) => p,
            None => {
                return Err(NotebookLmError::SessionNotFound(key));
            },
        };
        Ok(self.sessions.remove(pos))
    }

    /// Reset a session at time `now`: clear its message count, keep its ID.
    pub fn reset_at(&mut self, id: &str, now: i64) -> (r: Result<(), NotebookLmError>)
        ensures
            match r {
                Ok(()) => {
                    &&& old(self)@.position(id@) matches Some(k)
                    &&& final(self)@ == old(self)@.with_replaced(
                        k,
                        with_reset(old(self)@.sessions[k], now),
                    )
                },
                Err(e) => {
                    &&& old(self)@.position(id@) is None
                    &&& final(self)@ == old(self)@
                    &&& is_session_not_found(e, id@)
                },
            },
    {
        let key = String::from_str(id);
        let pos = match self.position_of(&key) {
            Some(p) => p,
            None => {
                return Err(NotebookLmError::SessionNotFound(key));
            },
        };
        let s = &mut self.sessions[pos];
        s.message_count = 0;
        s.last_activity = now;
        Ok(())
    }

    /// Reset a session (clear message count, keep ID), at the current time.
    pub fn reset(&mut self, id: &str) -> (r: Result<(), NotebookLmError>)
        ensures
            match r {
                Ok(()) => {
                    &&& old(self)@.position(id@) matches Some(k)
                    &&& final(self)@.sessions[k].last_activity >= 0
                    &&& final(self)@ == old(self)@.with_replaced(
                        k,
                        with_reset(old(self)@.sessions[k], final(self)@.sessions[k].last_activity),
                    )
                },
                Err(e) => {
                    &&& old(self)@.position(id@) is None
                    &&& final(self)@ == old(self)@
                    &&& is_session_not_found(e, id@)
                },
            },
    {
        let now = now_micros();
        proof {
            old(self)@.lemma_position(id@);
        }
        self.reset_at(id, now)
    }

    /// List all sessions.
    pub fn list(&self) -> (r: &[Session])
        ensures
            r@ == self@.sessions,
    {
        self.sessions.as_slice()
    }
}

/// What tracking a query's session leaves and returns. A given identifier is
/// returned as it is, with the store unchanged. Otherwise the notebook's session
/// is found or created (`get_or_create_post`); its identifier is returned after
/// one message is recorded in it, or `None` comes back, with the store as
/// `get_or_create` left it, exactly when its message count is already maximal.
pub open spec fn track_session_post(
    before: SessionStoreView,
    after: SessionStoreView,
    session_id: Option<Seq<char>>,
    notebook_id: Seq<char>,
    r: Option<Seq<char>>,
) -> bool {
    match session_id {
        Some(id) => r == Some(id) && after == before,
        None => match r {
            Some(sid) => recorded_in_notebook_session(before, after, notebook_id, sid),
            None => count_maxed_in_notebook_session(before, after, notebook_id),
        },
    }
}

/// The notebook's session, found or created, is `sid` and then records one message.
pub open spec fn recorded_in_notebook_session(
    before: SessionStoreView,
    after: SessionStoreView,
    notebook_id: Seq<char>,
    sid: Seq<char>,
) -> bool {
    exists|mid: SessionStoreView|
        #![trigger get_or_create_post(before, mid, notebook_id, sid)]
        get_or_create_post(before, mid, notebook_id, sid) && message_recorded(mid, after, sid)
}

/// The notebook's session, found or created, has a maximal message count.
pub open spec fn count_maxed_in_notebook_session(
    before: SessionStoreView,
    after: SessionStoreView,
    notebook_id: Seq<char>,
) -> bool {
    exists|sid: Seq<char>|
        #![trigger get_or_create_post(before, after, notebook_id, sid)]
        get_or_create_post(before, after, notebook_id, sid) && !after.can_record(sid)
}

/// `after` is `before` with one more message recorded, at a non-negative time,
/// in the first session with identifier `sid`.
pub open spec fn message_recorded(before: SessionStoreView, after: SessionStoreView, sid: Seq<char>) -> bool {
    &&& before.position(sid) matches Some(k)
    &&& after.sessions.len() == before.sessions.len()
    &&& after.sessions[k].last_activity >= 0
    &&& after == before.with_replaced(k, with_message(before.sessions[k], after.sessions[k].last_activity))
}

/// The session a query is recorded in: the given one, or the notebook's
/// session (found or created) after recording one message in it; `None` when
/// that session's message count cannot grow.
pub fn track_session(store: &mut SessionStore, session_id: Option<&str>, notebook_id: &str) -> (r:
    Option<String>)
    ensures
        track_session_post(
            old(store)@,
            final(store)@,
            opt_str_chars(session_id),
            notebook_id@,
            opt_chars(r),
        ),
{
    match session_id {
        Some(id) => {
            let r = String::from_str(id);
            assert(opt_chars(Some(r)) == Some(id@));
            assert(opt_str_chars(session_id) == Some(id@));
            assert(track_session_post(store@, store@, Some(id@), notebook_id@, Some(r@)));
            Some(r)
        },
        None => {
            let ghost before = store@;
            let sid = match store.get_or_create(notebook_id) {
                Ok(s) => s,
                Err(_) => String::new(),
            };
            let ghost mid = store@;
            proof {
                assert(get_or_create_post(before, mid, notebook_id@, sid@));
                mid.lemma_session_for(notebook_id@);
                mid.lemma_position(sid@);
                let k = mid.session_for(notebook_id@)->0;
                assert(mid.sessions[k].id@ == sid@);
            }
            let target = match store.position_of(&sid) {
                Some(j) => j,
                None => {
                    assert(false);
                    return None;
                },
            };
            if store.sessions[target].message_count == u32::MAX {
                assert(!mid.can_record(sid@));
                assert(get_or_create_post(before, store@, notebook_id@, sid@) && !store@.can_record(
                    sid@,
                ));
                assert(track_session_post(before, store@, None, notebook_id@, None));
                return None;
            }
            let recorded = store.record_message(sid.as_str());
            proof {
                assert(recorded is Ok);
                assert(get_or_create_post(before, mid, notebook_id@, sid@) && message_recorded(
                    mid,
                    store@,
                    sid@,
                ));
                assert(opt_chars(Some(sid)) == Some(sid@));
                assert(exists|m: SessionStoreView|
                    #[trigger] get_or_create_post(before, m, notebook_id@, sid@) && message_recorded(
                        m,
                        store@,
                        sid@,
                    ));
                assert(track_session_post(before, store@, None, notebook_id@, Some(sid@)));
            }
            Some(sid)
        },
    }
}

/// The characters of an optional string slice.
pub open spec fn opt_str_chars(s: Option<&str>) -> Option<Seq<char>> {
    match s {
        Some(v) => Some(v@),
        None => None,
    }
}

/// `get_or_create` is idempotent: asked again for the same notebook, it returns
/// the same identifier and leaves the store unchanged.
pub proof fn law_get_or_create_idempotent(
    v1: SessionStoreView,
    v2: SessionStoreView,
    v3: SessionStoreView,
    notebook_id: Seq<char>,
    s1: Seq<char>,
    s2: Seq<char>,
)
    requires
        get_or_create_post(v1, v2, notebook_id, s1),
        get_or_create_post(v2, v3, notebook_id, s2),
    ensures
        s2 == s1,
        v3 == v2,
{
}

/// A session added under an identifier that no session has is found under it.
pub proof fn law_create_then_get(v: SessionStoreView, s: Session)
    requires
        v.position(s.id@) is None,
    ensures
        v.with_session(s).lookup(s.id@) == Some(s),
{
    let w = v.with_session(s);
    v.lemma_position(s.id@);
    w.lemma_position(s.id@);
    assert(w.sessions[v.sessions.len() as int] == s);
    match w.position(s.id@) {
        Some(k) => {
            if k < v.sessions.len() {
                assert(w.sessions[k] == v.sessions[k]);
            }
        },
        None => {},
    }
}

/// Recording a message raises the session's count by one; the session is still
/// found under its identifier.
pub proof fn law_record_message_increments(v: SessionStoreView, id: Seq<char>, now: i64)
    requires
        v.position(id) is Some,
        v.can_record(id),
    ensures
        ({
            let k = v.position(id)->0;
            let w = v.with_replaced(k, with_message(v.sessions[k], now));
            &&& w.lookup(id) matches Some(s) && s.message_count == v.sessions[k].message_count + 1
            &&& w.lookup(id)->0.last_activity == now
        }),
{
    let k = v.position(id)->0;
    let w = v.with_replaced(k, with_message(v.sessions[k], now));
    v.lemma_position(id);
    assert(session_ids(w.sessions) =~= session_ids(v.sessions));
    assert(w.position(id) == v.position(id));
}

/// Resetting a session clears its count; the session is still found under its
/// identifier.
pub proof fn law_reset_clears_count(v: SessionStoreView, id: Seq<char>, now: i64)
    requires
        v.position(id) is Some,
    ensures
        ({
            let k = v.position(id)->0;
            let w = v.with_replaced(k, with_reset(v.sessions[k], now));
            &&& w.lookup(id) matches Some(s) && s.message_count == 0
            &&& w.lookup(id)->0.id == v.sessions[k].id
        }),
{
    let k = v.position(id)->0;
    let w = v.with_replaced(k, with_reset(v.sessions[k], now));
    v.lemma_position(id);
    assert(session_ids(w.sessions) =~= session_ids(v.sessions));
    assert(w.position(id) == v.position(id));
}

/// With unique identifiers, a closed session is no longer found.
pub proof fn law_close_then_get(v: SessionStoreView, id: Seq<char>)
    requires
        v.ids_unique(),
        v.position(id) is Some,
    ensures
        v.without(v.position(id)->0).lookup(id) is None,
{
    let k = v.position(id)->0;
    let w = v.without(k);
    v.lemma_position(id);
    w.lemma_position(id);
    if w.position(id) is Some {
        let j = w.position(id)->0;
        if j < k {
            assert(w.sessions[j] == v.sessions[j]);
        } else {
            assert(w.sessions[j] == v.sessions[j + 1]);
        }
    }
}

/// With unique identifiers, closing a session leaves what every other
/// identifier finds unchanged.
pub proof fn law_close_keeps_other_lookups(v: SessionStoreView, id: Seq<char>, other: Seq<char>)
    requires
        v.ids_unique(),
        v.position(id) is Some,
        other != id,
    ensures
        v.without(v.position(id)->0).lookup(other) == v.lookup(other),
{
    let k = v.position(id)->0;
    let w = v.without(k);
    v.lemma_position(id);
    v.lemma_position(other);
    w.lemma_position(other);
    match v.position(other) {
        Some(p) => {
            let q = if p < k { p } else { p - 1 };
            assert(w.sessions[q] == v.sessions[p]);
            assert forall|j: int| 0 <= j < q implies w.sessions[j].id@ != other by {
                if j < k {
                    assert(w.sessions[j] == v.sessions[j]);
                } else {
                    assert(w.sessions[j] == v.sessions[j + 1]);
                }
            }
            match w.position(other) {
                Some(b) => {
                    if q < b {
                        assert(w.sessions[q].id@ == other);
                    }
                },
                None => {
                    assert(w.sessions[q].id@ == other);
                },
            }
        },
        None => {
            if w.position(other) is Some {
                let b = w.position(other)->0;
                if b < k {
                    assert(w.sessions[b] == v.sessions[b]);
                } else {
                    assert(w.sessions[b] == v.sessions[b + 1]);
                }
            }
        },
    }
}

} // verus!
