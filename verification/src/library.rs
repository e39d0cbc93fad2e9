//! Notebook library: CRUD over notebook metadata, search and statistics.
//!
//! The library is an ordered list of notebooks plus the identifier of the
//! active one. Notebooks are found by identifier, first match first.

use vstd::prelude::*;

use crate::clock::now_micros;
use crate::error::NotebookLmError;
use crate::lookup::{
    first_index_of, lemma_first_index_is, lemma_first_index_none, lemma_first_index_of,
};
use crate::text::{
    ascii_lower, ascii_upper, contains_chars, is_ascii_text, law_ascii_case_folds_alike, lowercase,
    str_contains, to_lowercase,
};
use crate::types::{LibraryStats, Notebook};

verus! {

/// In-memory library state: the notebooks and the currently active notebook ID.
#[derive(Debug)]
pub struct Library {
    /// All notebooks.
    pub notebooks: Vec<Notebook>,
    /// Currently active notebook ID.
    pub active_id: Option<String>,
}

/// Abstract library: the notebooks in order and the active identifier's characters.
pub struct LibraryView {
    pub notebooks: Seq<Notebook>,
    pub active_id: Option<Seq<char>>,
}

/// The characters of an optional string.
pub open spec fn opt_chars(s: Option<String>) -> Option<Seq<char>> {
    match s {
        Some(v) => Some(v@),
        None => None,
    }
}

impl View for Library {
    type V = LibraryView;

    open spec fn view(&self) -> LibraryView {
        LibraryView { notebooks: self.notebooks@, active_id: opt_chars(self.active_id) }
    }
}

/// The identifiers of a sequence of notebooks, in order.
pub open spec fn notebook_ids(nbs: Seq<Notebook>) -> Seq<Seq<char>> {
    nbs.map_values(|n: Notebook| n.id@)
}

/// `e` reports that no notebook has identifier `id`.
pub open spec fn is_notebook_not_found(e: NotebookLmError, id: Seq<char>) -> bool {
    e matches NotebookLmError::NotebookNotFound(s) && s@ == id
}

/// The message of the error that `add` returns for a duplicate identifier.
pub open spec fn duplicate_id_message(id: Seq<char>) -> Seq<char> {
    "notebook with id '"@ + id + "' already exists"@
}

/// Replace a field when a new value is given.
pub open spec fn or_keep<T>(new: Option<T>, old: T) -> T {
    match new {
        Some(v) => v,
        None => old,
    }
}

/// A notebook with the given metadata fields replaced and `updated_at` set to `now`.
pub open spec fn edited_notebook(
    nb: Notebook,
    name: Option<String>,
    description: Option<String>,
    url: Option<String>,
    topics: Option<Vec<String>>,
    content_types: Option<Vec<String>>,
    use_cases: Option<Vec<String>>,
    tags: Option<Vec<String>>,
    now: i64,
) -> Notebook {
    Notebook {
        name: or_keep(name, nb.name),
        description: or_keep(description, nb.description),
        url: or_keep(url, nb.url),
        topics: or_keep(topics, nb.topics),
        content_types: or_keep(content_types, nb.content_types),
        use_cases: or_keep(use_cases, nb.use_cases),
        tags: or_keep(tags, nb.tags),
        updated_at: now,
        ..nb
    }
}

impl LibraryView {
    /// The position is the least index holding `id`, and absent when none does.
    pub proof fn lemma_position(self, id: Seq<char>)
        ensures
            match self.position(id) {
                Some(k) => 0 <= k < self.notebooks.len() && self.notebooks[k].id@ == id && forall|
                    j: int,
                | 0 <= j < k ==> self.notebooks[j].id@ != id,
                None => forall|j: int| 0 <= j < self.notebooks.len() ==> self.notebooks[j].id@ != id,
            },
    {
        let keys = notebook_ids(self.notebooks);
        lemma_first_index_of(keys, id);
        match self.position(id) {
            Some(k) => {
                assert(keys[k] == self.notebooks[k].id@);
                assert forall|j: int| 0 <= j < k implies self.notebooks[j].id@ != id by {
                    assert(keys[j] == self.notebooks[j].id@);
                }
            },
            None => {
                assert forall|j: int| 0 <= j < self.notebooks.len() implies self.notebooks[j].id@
                    != id by {
                    assert(keys[j] == self.notebooks[j].id@);
                }
            },
        }
    }

    /// Position of the first notebook with identifier `id`.
    pub open spec fn position(self, id: Seq<char>) -> Option<int> {
        first_index_of(notebook_ids(self.notebooks), id)
    }

    /// The first notebook with identifier `id`.
    pub open spec fn lookup(self, id: Seq<char>) -> Option<Notebook> {
        match self.position(id) {
            Some(i) => Some(self.notebooks[i]),
            None => None,
        }
    }

    /// The notebook that the active identifier names, if any.
    pub open spec fn active_notebook(self) -> Option<Notebook> {
        match self.active_id {
            Some(a) => self.lookup(a),
            None => None,
        }
    }

    /// No two notebooks share an identifier.
    pub open spec fn ids_unique(self) -> bool {
        forall|i: int, j: int|
            0 <= i < self.notebooks.len() && 0 <= j < self.notebooks.len() && i != j
                ==> self.notebooks[i].id@ != self.notebooks[j].id@
    }

    /// The library with `nb` appended.
    pub open spec fn with_notebook(self, nb: Notebook) -> LibraryView {
        LibraryView { notebooks: self.notebooks.push(nb), ..self }
    }

    /// The library with `id` as the active identifier.
    pub open spec fn with_active(self, id: Seq<char>) -> LibraryView {
        LibraryView { active_id: Some(id), ..self }
    }

    /// The library with the notebook at `k` replaced by `nb`.
    pub open spec fn with_replaced(self, k: int, nb: Notebook) -> LibraryView {
        LibraryView { notebooks: self.notebooks.update(k, nb), ..self }
    }

    /// The library without the notebook at `k`; the active identifier is
    /// cleared when it equals `id`.
    pub open spec fn without(self, k: int, id: Seq<char>) -> LibraryView {
        LibraryView {
            notebooks: self.notebooks.remove(k),
            active_id: if self.active_id == Some(id) {
                None
            } else {
                self.active_id
            },
        }
    }
}

/// `text`, folded to lowercase, contains the (already folded) query `q`.
pub open spec fn text_matches(text: Seq<char>, q: Seq<char>) -> bool {
    contains_chars(lowercase(text), q)
}

/// Some item of `items` matches `q`.
pub open spec fn any_text_matches(items: Seq<String>, q: Seq<char>) -> bool {
    exists|i: int| 0 <= i < items.len() && text_matches(#[trigger] items[i]@, q)
}

/// A notebook matches the folded query when its name, description, one of its
/// topics, tags or use cases contains it, ignoring case.
pub open spec fn notebook_matches(nb: Notebook, q: Seq<char>) -> bool {
    ||| text_matches(nb.name@, q)
    ||| text_matches(nb.description@, q)
    ||| any_text_matches(nb.topics@, q)
    ||| any_text_matches(nb.tags@, q)
    ||| any_text_matches(nb.use_cases@, q)
}

/// The notebooks that match the folded query `q`, in library order.
pub open spec fn search_folded(nbs: Seq<Notebook>, q: Seq<char>) -> Seq<Notebook> {
    nbs.filter(|n: Notebook| notebook_matches(n, q))
}

/// The notebooks that match `query`, in library order.
pub open spec fn search_results(nbs: Seq<Notebook>, query: Seq<char>) -> Seq<Notebook> {
    search_folded(nbs, lowercase(query))
}

/// The notebooks that references point to.
pub open spec fn derefs(rs: Seq<&Notebook>) -> Seq<Notebook> {
    rs.map_values(|r: &Notebook| *r)
}

/// Whether some item of `items`, folded to lowercase, contains `q`.
fn any_item_matches(items: &Vec<String>, q: &str) -> (r: bool)
    ensures
        r == any_text_matches(items@, q@),
{
    let mut i: usize = 0;
    while i < items.len()
        invariant
            i <= items@.len(),
            forall|j: int| 0 <= j < i ==> !text_matches(#[trigger] items@[j]@, q@),
        decreases items@.len() - i,
    {
        if str_contains(to_lowercase(items[i].as_str()).as_str(), q) {
            return true;
        }
        i = i + 1;
    }
    false
}

/// Whether a notebook matches the query `q`, already folded to lowercase.
pub fn notebook_matches_query(nb: &Notebook, q: &str) -> (r: bool)
    ensures
        r == notebook_matches(*nb, q@),
{
    str_contains(to_lowercase(nb.name.as_str()).as_str(), q)
        || str_contains(to_lowercase(nb.description.as_str()).as_str(), q)
        || any_item_matches(&nb.topics, q)
        || any_item_matches(&nb.tags, q)
        || any_item_matches(&nb.use_cases, q)
}

/// The characters of each string, in order.
pub open spec fn views(v: Seq<String>) -> Seq<Seq<char>> {
    v.map_values(|s: String| s@)
}

/// Every string (as characters) that occurs in one of the lists.
pub open spec fn all_strings(lists: Seq<Seq<String>>) -> Set<Seq<char>> {
    Set::new(
        |t: Seq<char>|
            exists|i: int, j: int|
                0 <= i < lists.len() && 0 <= j < lists[i].len() && (#[trigger] lists[i][j])@ == t,
    )
}

/// The topic lists of the notebooks, in order.
pub open spec fn topic_lists(nbs: Seq<Notebook>) -> Seq<Seq<String>> {
    nbs.map_values(|n: Notebook| n.topics@)
}

/// The tag lists of the notebooks, in order.
pub open spec fn tag_lists(nbs: Seq<Notebook>) -> Seq<Seq<String>> {
    nbs.map_values(|n: Notebook| n.tags@)
}

/// `k` is the last position holding the greatest `created_at`.
pub open spec fn is_latest(nbs: Seq<Notebook>, k: int) -> bool {
    &&& 0 <= k < nbs.len()
    &&& forall|j: int| 0 <= j < nbs.len() ==> nbs[j].created_at <= nbs[k].created_at
    &&& forall|j: int| k < j < nbs.len() ==> nbs[j].created_at < nbs[k].created_at
}

/// Whether `v` holds a string with the characters of `s`.
fn holds_string(v: &Vec<String>, s: &String) -> (r: bool)
    ensures
        r == views(v@).contains(s@),
{
    let mut i: usize = 0;
    while i < v.len()
        invariant
            i <= v@.len(),
            forall|j: int| 0 <= j < i ==> views(v@)[j] != s@,
        decreases v@.len() - i,
    {
        if v[i] == *s {
            assert(views(v@)[i as int] == s@);
            return true;
        }
        i = i + 1;
    }
    false
}

/// Add to `distinct` the strings of `items` it does not hold yet.
fn add_distinct(distinct: &mut Vec<String>, items: &Vec<String>)
    requires
        views(old(distinct)@).no_duplicates(),
    ensures
        views(final(distinct)@).no_duplicates(),
        views(final(distinct)@).to_set() == views(old(distinct)@).to_set() + views(items@).to_set(),
{
    let mut i: usize = 0;
    while i < items.len()
        invariant
            i <= items@.len(),
            views(distinct@).no_duplicates(),
            views(distinct@).to_set() == views(old(distinct)@).to_set() + views(
                items@.take(i as int),
            ).to_set(),
        decreases items@.len() - i,
    {
        let ghost before = views(distinct@);
        let ghost x = items@[i as int]@;
        assert(views(items@.take(i + 1)) == views(items@.take(i as int)).push(x));
        proof {
            views(items@.take(i as int)).lemma_push_to_set_commute(x);
        }
        if !holds_string(distinct, &items[i]) {
            distinct.push(items[i].clone());
            assert(views(distinct@) == before.push(x));
            proof {
                before.lemma_push_to_set_commute(x);
            }
            assert forall|a: int, b: int|
                0 <= a < views(distinct@).len() && 0 <= b < views(distinct@).len() && a != b
                implies views(distinct@)[a] != views(distinct@)[b] by {
                if a == before.len() {
                    assert(before[b] == views(distinct@)[b]);
                    assert(before.contains(before[b]));
                } else if b == before.len() {
                    assert(before[a] == views(distinct@)[a]);
                    assert(before.contains(before[a]));
                }
            }
            assert(views(distinct@).to_set() =~= views(old(distinct)@).to_set() + views(
                items@.take(i + 1),
            ).to_set());
        } else {
            assert(before.to_set().contains(x));
            assert(views(distinct@).to_set() =~= views(old(distinct)@).to_set() + views(
                items@.take(i + 1),
            ).to_set());
        }
        i = i + 1;
    }
    assert(items@.take(items@.len() as int) == items@);
}

/// Appending a list adds its strings to the set of all strings.
pub proof fn lemma_all_strings_push(lists: Seq<Seq<String>>, l: Seq<String>)
    ensures
        all_strings(lists.push(l)) == all_strings(lists) + views(l).to_set(),
{
    let lhs = all_strings(lists.push(l));
    let rhs = all_strings(lists) + views(l).to_set();
    assert forall|t: Seq<char>| lhs.contains(t) implies rhs.contains(t) by {
        let (i, j) = choose|i: int, j: int|
            0 <= i < lists.push(l).len() && 0 <= j < lists.push(l)[i].len() && (#[trigger] lists.push(
                l,
            )[i][j])@ == t;
        if i < lists.len() {
            assert(lists.push(l)[i] == lists[i]);
            assert(lists[i][j]@ == t);
        } else {
            assert(views(l)[j] == t);
            assert(views(l).contains(t));
        }
    }
    assert forall|t: Seq<char>| rhs.contains(t) implies lhs.contains(t) by {
        if all_strings(lists).contains(t) {
            let (i, j) = choose|i: int, j: int|
                0 <= i < lists.len() && 0 <= j < lists[i].len() && (#[trigger] lists[i][j])@ == t;
            assert(lists.push(l)[i] == lists[i]);
            assert(lists.push(l)[i][j]@ == t);
        } else {
            assert(views(l).contains(t));
            let j = choose|j: int| 0 <= j < views(l).len() && views(l)[j] == t;
            assert(lists.push(l)[lists.len() as int] == l);
            assert(lists.push(l)[lists.len() as int][j]@ == t);
        }
    }
    assert(lhs =~= rhs);
}

impl Default for Library {
    fn default() -> (r: Self)
        ensures
            r@.notebooks == Seq::<Notebook>::empty(),
            r@.active_id is None,
    {
        Library { notebooks: Vec::new(), active_id: None }
    }
}

impl Library {
    /// Position of the first notebook whose identifier equals `key`.
    fn position_of(&self, key: &String) -> (r: Option<usize>)
        ensures
            match r {
                Some(i) => i < self@.notebooks.len() && self@.position(key@) == Some(i as int),
                None => self@.position(key@) is None,
            },
    {
        let ghost keys = notebook_ids(self.notebooks@);
        let mut i: usize = 0;
        while i < self.notebooks.len()
            invariant
                keys == notebook_ids(self.notebooks@),
                i <= self.notebooks@.len(),
                forall|j: int| 0 <= j < i ==> keys[j] != key@,
            decreases self.notebooks@.len() - i,
        {
            if self.notebooks[i].id == *key {
                proof {
                    lemma_first_index_is(keys, key@, i as int);
                }
                return Some(i);
            }
            assert(keys[i as int] == self.notebooks@[i as int].id@);
            i = i + 1;
        }
        proof {
            lemma_first_index_none(keys, key@);
        }
        None
    }

    /// Add a notebook to the library; an identifier already present is refused.
    pub fn add(&mut self, notebook: Notebook) -> (r: Result<(), NotebookLmError>)
        ensures
            match r {
                Ok(()) => {
                    &&& old(self)@.position(notebook.id@) is None
                    &&& final(self)@ == old(self)@.with_notebook(notebook)
                },
                Err(e) => {
                    &&& old(self)@.position(notebook.id@) is Some
                    &&& final(self)@ == old(self)@
                    &&& e matches NotebookLmError::Other(m) && m@ == duplicate_id_message(
                        notebook.id@,
                    )
                },
            },
    {
        if self.position_of(&notebook.id).is_some() {
            let mut msg = String::from_str("notebook with id '");
            msg.append(notebook.id.as_str());
            msg.append("' already exists");
            return Err(NotebookLmError::Other(msg));
        }
        self.notebooks.push(notebook);
        Ok(())
    }

    /// Get a notebook by ID.
    pub fn get(&self, id: &str) -> (r: Result<&Notebook, NotebookLmError>)
        ensures
            match r {
                Ok(n) => self@.lookup(id@) == Some(*n),
                Err(e) => self@.lookup(id@) is None && is_notebook_not_found(e, id@),
            },
    {
        let key = String::from_str(id);
        match self.position_of(&key) {
            Some(i) => Ok(&self.notebooks[i]),
            None => Err(NotebookLmError::NotebookNotFound(key)),
        }
    }

    /// Get the active notebook.
    pub fn active(&self) -> (r: Result<&Notebook, NotebookLmError>)
        ensures
            match r {
                Ok(n) => self@.active_notebook() == Some(*n),
                Err(e) => match self@.active_id {
                    None => e is NoActiveNotebook,
                    Some(a) => self@.lookup(a) is None && is_notebook_not_found(e, a),
                },
            },
    {
        match &self.active_id {
            None => Err(NotebookLmError::NoActiveNotebook),
            Some(a) => self.get(a.as_str()),
        }
    }

    /// Set the active notebook by ID; the notebook must exist.
    pub fn select(&mut self, id: &str) -> (r: Result<(), NotebookLmError>)
        ensures
            match r {
                Ok(()) => {
                    &&& old(self)@.position(id@) is Some
                    &&& final(self)@ == old(self)@.with_active(id@)
                },
                Err(e) => {
                    &&& old(self)@.position(id@) is None
                    &&& final(self)@ == old(self)@
                    &&& is_notebook_not_found(e, id@)
                },
            },
    {
        let key = String::from_str(id);
        if self.position_of(&key).is_none() {
            return Err(NotebookLmError::NotebookNotFound(key));
        }
        self.active_id = Some(key);
        Ok(())
    }

    /// Remove a notebook from the library, returning it; clears the active
    /// notebook when it was the removed one.
    pub fn remove(&mut self, id: &str) -> (r: Result<Notebook, NotebookLmError>)
        ensures
            match r {
                Ok(nb) => {
                    &&& old(self)@.position(id@) matches Some(k)
                    &&& nb == old(self)@.notebooks[k]
                    &&& final(self)@ == old(self)@.without(k, id@)
                },
                Err(e) => {
                    &&& old(self)@.position(id@) is None
                    &&& final(self)@ == old(self)@
                    &&& is_notebook_not_found(e, id@)
                },
            },
    {
        let key = String::from_str(id);
        let pos = match self.position_of(&key) {
            Some(p) => p,
            None => {
                return Err(NotebookLmError::NotebookNotFound(key));
            },
        };
        let removed = self.notebooks.remove(pos);
        let clear = match &self.active_id {
            Some(a) => *a == key,
            None => false,
        };
        if clear {
            self.active_id = None;
        }
        Ok(removed)
    }
    /// Update a notebook's metadata, stamping `updated_at` with `now`; returns
    /// the updated notebook.
    pub fn update_at(
        &mut self,
        id: &str,
        name: Option<String>,
        description: Option<String>,
        url: Option<String>,
        topics: Option<Vec<String>>,
        content_types: Option<Vec<String>>,
        use_cases: Option<Vec<String>>,
        tags: Option<Vec<String>>,
        now: i64,
    ) -> (r: Result<&Notebook, NotebookLmError>)
        ensures
            match r {
                Ok(n) => {
                    &&& old(self)@.position(id@) matches Some(k)
                    &&& final(self)@ == old(self)@.with_replaced(
                        k,
                        edited_notebook(
                            old(self)@.notebooks[k],
                            name,
                            description,
                            url,
                            topics,
                            content_types,
                            use_cases,
                            tags,
                            now,
                        ),
                    )
                    &&& *n == final(self)@.notebooks[k]
                },
                Err(e) => {
                    &&& old(self)@.position(id@) is None
                    &&& final(self)@ == old(self)@
                    &&& is_notebook_not_found(e, id@)
                },
            },
    {
        let key = String::from_str(id);
        let pos = match self.position_of(&key) {
            Some(p) => p,
            None => {
                return Err(NotebookLmError::NotebookNotFound(key));
            },
        };
        let nb = &mut self.notebooks[pos];
        if let Some(v) = name {
            nb.name = v;
        }
        if let Some(v) = description {
            nb.description = v;
        }
        if let Some(v) = url {
            nb.url = v;
        }
        if let Some(v) = topics {
            nb.topics = v;
        }
        if let Some(v) = content_types {
            nb.content_types = v;
        }
        if let Some(v) = use_cases {
            nb.use_cases = v;
        }
        if let Some(v) = tags {
            nb.tags = v;
        }
        nb.updated_at = now;
        Ok(&self.notebooks[pos])
    }
    /// Update a notebook's metadata, stamping `updated_at` with the current
    /// time; returns the updated notebook.
    pub fn update(
        &mut self,
        id: &str,
        name: Option<String>,
        description: Option<String>,
        url: Option<String>,
        topics: Option<Vec<String>>,
        content_types: Option<Vec<String>>,
        use_cases: Option<Vec<String>>,
        tags: Option<Vec<String>>,
    ) -> (r: Result<&Notebook, NotebookLmError>)
        ensures
            match r {
                Ok(n) => {
                    &&& old(self)@.position(id@) matches Some(k)
                    &&& final(self)@.notebooks[k].updated_at >= 0
                    &&& final(self)@ == old(self)@.with_replaced(
                        k,
                        edited_notebook(
                            old(self)@.notebooks[k],
                            name,
                            description,
                            url,
                            topics,
                            content_types,
                            use_cases,
                            tags,
                            final(self)@.notebooks[k].updated_at,
                        ),
                    )
                    &&& *n == final(self)@.notebooks[k]
                },
                Err(e) => {
                    &&& old(self)@.position(id@) is None
                    &&& final(self)@ == old(self)@
                    &&& is_notebook_not_found(e, id@)
                },
            },
    {
        let now = now_micros();
        proof {
            old(self)@.lemma_position(id@);
        }
        self.update_at(id, name, description, url, topics, content_types, use_cases, tags, now)
    }

    /// Search notebooks by keyword, ignoring case, across name, description,
    /// topics, tags and use cases.
    pub fn search(&self, query: &str) -> (r: Vec<&Notebook>)
        ensures
            derefs(r@) == search_results(self@.notebooks, query@),
            is_ascii_text(query@) ==> derefs(r@) == search_folded(
                self@.notebooks,
                ascii_lower(query@),
            ),
    {
        let q = to_lowercase(query);
        let ghost pred = |n: Notebook| notebook_matches(n, lowercase(query@));
        let mut out: Vec<&Notebook> = Vec::new();
        let mut i: usize = 0;
        while i < self.notebooks.len()
            invariant
                i <= self.notebooks@.len(),
                q@ == lowercase(query@),
                pred == (|n: Notebook| notebook_matches(n, lowercase(query@))),
                derefs(out@) == self.notebooks@.take(i as int).filter(pred),
            decreases self.notebooks@.len() - i,
        {
            let nb = &self.notebooks[i];
            let hit = notebook_matches_query(nb, q.as_str());
            proof {
                reveal_with_fuel(Seq::<_>::filter, 1);
                assert(self.notebooks@.take(i + 1).drop_last() == self.notebooks@.take(i as int));
            }
            if hit {
                out.push(nb);
                assert(derefs(out@) == self.notebooks@.take(i + 1).filter(pred));
            } else {
                assert(derefs(out@) == self.notebooks@.take(i + 1).filter(pred));
            }
            i = i + 1;
        }
        assert(self.notebooks@.take(self.notebooks@.len() as int) == self.notebooks@);
        assert(derefs(out@) == search_folded(self.notebooks@, lowercase(query@)));
        out
    }
    /// Compute library statistics: the number of notebooks, of distinct topics
    /// and of distinct tags, and the name of the most recently created notebook
    /// (the last one among equals).
    pub fn stats(&self) -> (r: LibraryStats)
        ensures
            r.total_notebooks == self@.notebooks.len(),
            r.total_topics == all_strings(topic_lists(self@.notebooks)).len(),
            r.total_tags == all_strings(tag_lists(self@.notebooks)).len(),
            match r.most_recent {
                None => self@.notebooks.len() == 0,
                Some(name) => exists|k: int|
                    is_latest(self@.notebooks, k) && name == (#[trigger] self@.notebooks[k]).name,
            },
    {
        let ghost nbs = self.notebooks@;
        let mut topics: Vec<String> = Vec::new();
        let mut tags: Vec<String> = Vec::new();
        assert(topic_lists(nbs.take(0)) == Seq::<Seq<String>>::empty());
        assert(tag_lists(nbs.take(0)) == Seq::<Seq<String>>::empty());
        assert(all_strings(Seq::<Seq<String>>::empty()) =~= Set::<Seq<char>>::empty());
        assert(views(topics@).to_set() =~= Set::<Seq<char>>::empty());
        let mut i: usize = 0;
        while i < self.notebooks.len()
            invariant
                nbs == self.notebooks@,
                i <= nbs.len(),
                views(topics@).no_duplicates(),
                views(tags@).no_duplicates(),
                views(topics@).to_set() == all_strings(topic_lists(nbs.take(i as int))),
                views(tags@).to_set() == all_strings(tag_lists(nbs.take(i as int))),
            decreases nbs.len() - i,
        {
            add_distinct(&mut topics, &self.notebooks[i].topics);
            add_distinct(&mut tags, &self.notebooks[i].tags);
            proof {
                assert(topic_lists(nbs.take(i + 1)) == topic_lists(nbs.take(i as int)).push(
                    nbs[i as int].topics@,
                ));
                assert(tag_lists(nbs.take(i + 1)) == tag_lists(nbs.take(i as int)).push(
                    nbs[i as int].tags@,
                ));
                lemma_all_strings_push(topic_lists(nbs.take(i as int)), nbs[i as int].topics@);
                lemma_all_strings_push(tag_lists(nbs.take(i as int)), nbs[i as int].tags@);
            }
            i = i + 1;
        }
        proof {
            assert(nbs.take(nbs.len() as int) == nbs);
            views(topics@).unique_seq_to_set();
            views(tags@).unique_seq_to_set();
        }
        let most_recent = if self.notebooks.len() == 0 {
            None
        } else {
            let mut best: usize = 0;
            let mut j: usize = 1;
            while j < self.notebooks.len()
                invariant
                    nbs == self.notebooks@,
                    0 <= best < j <= nbs.len(),
                    forall|m: int| 0 <= m < j ==> nbs[m].created_at <= nbs[best as int].created_at,
                    forall|m: int| best < m < j ==> nbs[m].created_at < nbs[best as int].created_at,
                decreases nbs.len() - j,
            {
                if self.notebooks[j].created_at >= self.notebooks[best].created_at {
                    best = j;
                }
                j = j + 1;
            }
            assert(is_latest(nbs, best as int));
            Some(self.notebooks[best].name.clone())
        };
        assert(most_recent is None ==> nbs.len() == 0);
        LibraryStats {
            total_notebooks: self.notebooks.len(),
            total_topics: topics.len(),
            total_tags: tags.len(),
            most_recent,
        }
    }
}

/// Adding a notebook whose identifier is new makes it the one found under that
/// identifier.
pub proof fn law_add_then_get(v: LibraryView, nb: Notebook)
    requires
        v.position(nb.id@) is None,
    ensures
        v.with_notebook(nb).lookup(nb.id@) == Some(nb),
{
    let w = v.with_notebook(nb);
    v.lemma_position(nb.id@);
    w.lemma_position(nb.id@);
    assert(w.notebooks[v.notebooks.len() as int] == nb);
    match w.position(nb.id@) {
        Some(k) => {
            if k < v.notebooks.len() {
                assert(w.notebooks[k] == v.notebooks[k]);
            }
        },
        None => {},
    }
}

/// Adding a notebook leaves what every other identifier finds unchanged.
pub proof fn law_add_keeps_other_lookups(v: LibraryView, nb: Notebook, id: Seq<char>)
    requires
        id != nb.id@,
    ensures
        v.with_notebook(nb).lookup(id) == v.lookup(id),
{
    let w = v.with_notebook(nb);
    v.lemma_position(id);
    w.lemma_position(id);
    assert forall|j: int| 0 <= j < v.notebooks.len() implies w.notebooks[j] == v.notebooks[j] by {}
    match (v.position(id), w.position(id)) {
        (Some(a), Some(b)) => {
            if a < b {
                assert(w.notebooks[a] == v.notebooks[a]);
            } else if b < a {
                assert(w.notebooks[b] == v.notebooks[b]);
            }
        },
        (Some(a), None) => {
            assert(w.notebooks[a] == v.notebooks[a]);
        },
        (None, Some(b)) => {
            assert(w.notebooks[b] == v.notebooks[b]);
        },
        (None, None) => {},
    }
}

/// Adding a notebook whose identifier is new keeps identifiers unique.
pub proof fn law_add_keeps_ids_unique(v: LibraryView, nb: Notebook)
    requires
        v.ids_unique(),
        v.position(nb.id@) is None,
    ensures
        v.with_notebook(nb).ids_unique(),
{
    let w = v.with_notebook(nb);
    v.lemma_position(nb.id@);
    assert forall|i: int, j: int|
        0 <= i < w.notebooks.len() && 0 <= j < w.notebooks.len() && i != j implies w.notebooks[i].id@
        != w.notebooks[j].id@ by {
        if i < v.notebooks.len() && j < v.notebooks.len() {
            assert(w.notebooks[i] == v.notebooks[i]);
            assert(w.notebooks[j] == v.notebooks[j]);
        } else if i < v.notebooks.len() {
            assert(w.notebooks[i] == v.notebooks[i]);
        } else {
            assert(w.notebooks[j] == v.notebooks[j]);
        }
    }
}

/// With unique identifiers, a removed notebook is no longer found.
pub proof fn law_remove_then_get(v: LibraryView, id: Seq<char>)
    requires
        v.ids_unique(),
        v.position(id) is Some,
    ensures
        v.without(v.position(id)->0, id).lookup(id) is None,
{
    let k = v.position(id)->0;
    let w = v.without(k, id);
    v.lemma_position(id);
    w.lemma_position(id);
    if w.position(id) is Some {
        let j = w.position(id)->0;
        if j < k {
            assert(w.notebooks[j] == v.notebooks[j]);
        } else {
            assert(w.notebooks[j] == v.notebooks[j + 1]);
        }
    }
}

/// With unique identifiers, removing a notebook leaves what every other
/// identifier finds unchanged.
pub proof fn law_remove_keeps_other_lookups(v: LibraryView, id: Seq<char>, other: Seq<char>)
    requires
        v.ids_unique(),
        v.position(id) is Some,
        other != id,
    ensures
        v.without(v.position(id)->0, id).lookup(other) == v.lookup(other),
{
    let k = v.position(id)->0;
    let w = v.without(k, id);
    v.lemma_position(id);
    v.lemma_position(other);
    w.lemma_position(other);
    match v.position(other) {
        Some(p) => {
            let q = if p < k { p } else { p - 1 };
            assert(w.notebooks[q] == v.notebooks[p]);
            assert forall|j: int| 0 <= j < q implies w.notebooks[j].id@ != other by {
                if j < k {
                    assert(w.notebooks[j] == v.notebooks[j]);
                } else {
                    assert(w.notebooks[j] == v.notebooks[j + 1]);
                }
            }
            match w.position(other) {
                Some(b) => {
                    if b < q {
                    } else if q < b {
                        assert(w.notebooks[q].id@ == other);
                    }
                },
                None => {
                    assert(w.notebooks[q].id@ == other);
                },
            }
        },
        None => {
            if w.position(other) is Some {
                let b = w.position(other)->0;
                if b < k {
                    assert(w.notebooks[b] == v.notebooks[b]);
                } else {
                    assert(w.notebooks[b] == v.notebooks[b + 1]);
                }
            }
        },
    }
}

/// With unique identifiers, removing a notebook leaves no active notebook with
/// its identifier: the active identifier is cleared when it named it.
pub proof fn law_remove_clears_active(v: LibraryView, id: Seq<char>)
    requires
        v.ids_unique(),
        v.position(id) is Some,
    ensures
        v.without(v.position(id)->0, id).active_notebook() matches Some(n) ==> n.id@ != id,
{
    let k = v.position(id)->0;
    let w = v.without(k, id);
    match w.active_id {
        Some(a) => {
            w.lemma_position(a);
        },
        None => {},
    }
}

/// Selecting an existing notebook makes it the active notebook.
pub proof fn law_select_then_active(v: LibraryView, id: Seq<char>)
    requires
        v.position(id) is Some,
    ensures
        v.with_active(id).active_notebook() == v.lookup(id),
        v.with_active(id).active_notebook() is Some,
{
}

/// Updating a notebook keeps its identifier: the identifier now finds the
/// edited notebook, and every other identifier finds what it found before.
pub proof fn law_update_then_get(
    v: LibraryView,
    id: Seq<char>,
    name: Option<String>,
    description: Option<String>,
    url: Option<String>,
    topics: Option<Vec<String>>,
    content_types: Option<Vec<String>>,
    use_cases: Option<Vec<String>>,
    tags: Option<Vec<String>>,
    now: i64,
    other: Seq<char>,
)
    requires
        v.position(id) is Some,
    ensures
        ({
            let k = v.position(id)->0;
            let nb = edited_notebook(
                v.notebooks[k],
                name,
                description,
                url,
                topics,
                content_types,
                use_cases,
                tags,
                now,
            );
            &&& v.with_replaced(k, nb).lookup(id) == Some(nb)
            &&& other != id ==> v.with_replaced(k, nb).lookup(other) == v.lookup(other)
        }),
{
    let k = v.position(id)->0;
    let nb = edited_notebook(
        v.notebooks[k],
        name,
        description,
        url,
        topics,
        content_types,
        use_cases,
        tags,
        now,
    );
    let w = v.with_replaced(k, nb);
    v.lemma_position(id);
    v.lemma_position(other);
    assert(notebook_ids(w.notebooks) =~= notebook_ids(v.notebooks));
    assert(w.position(id) == v.position(id));
    assert(w.position(other) == v.position(other));
    assert(w.notebooks[k] == nb);
    if other != id {
        match v.position(other) {
            Some(p) => {
                assert(p != k);
                assert(w.notebooks[p] == v.notebooks[p]);
            },
            None => {},
        }
    }
}

/// Search ignores the case of the query.
pub proof fn law_search_ignores_query_case(nbs: Seq<Notebook>, q1: Seq<char>, q2: Seq<char>)
    requires
        lowercase(q1) == lowercase(q2),
    ensures
        search_results(nbs, q1) == search_results(nbs, q2),
{
    let p1 = |n: Notebook| notebook_matches(n, lowercase(q1));
    let p2 = |n: Notebook| notebook_matches(n, lowercase(q2));
    assert(p1 == p2);
}

/// Search returns exactly the matching notebooks: each result matches, each
/// matching notebook is among the results, and there are no more results than
/// notebooks.
pub proof fn law_search_exact(nbs: Seq<Notebook>, q: Seq<char>)
    ensures
        forall|i: int|
            0 <= i < search_results(nbs, q).len() ==> notebook_matches(
                #[trigger] search_results(nbs, q)[i],
                lowercase(q),
            ),
        forall|i: int|
            0 <= i < nbs.len() && notebook_matches(nbs[i], lowercase(q)) ==> #[trigger] search_results(
                nbs,
                q,
            ).contains(nbs[i]),
        search_results(nbs, q).len() <= nbs.len(),
{
    let pred = |n: Notebook| notebook_matches(n, lowercase(q));
    let res = nbs.filter(pred);
    assert(res == search_results(nbs, q));
    assert forall|i: int| 0 <= i < res.len() implies notebook_matches(
        #[trigger] res[i],
        lowercase(q),
    ) by {
        nbs.lemma_filter_pred(pred, i);
    }
    assert forall|i: int| 0 <= i < nbs.len() && notebook_matches(nbs[i], lowercase(q)) implies #[trigger] res.contains(
        nbs[i],
    ) by {
        nbs.lemma_filter_contains(pred, i);
    }
    nbs.lemma_filter_len(pred);
}

/// Search ignores the ASCII case of an ASCII query: the query upper-cased, the
/// query lower-cased and the query itself fold to the same ASCII lowercase, so
/// they select the same notebooks in the same order.
pub proof fn law_search_ignores_ascii_case(nbs: Seq<Notebook>, q: Seq<char>)
    requires
        is_ascii_text(q),
    ensures
        is_ascii_text(ascii_upper(q)),
        is_ascii_text(ascii_lower(q)),
        search_folded(nbs, ascii_lower(ascii_upper(q))) == search_folded(nbs, ascii_lower(q)),
        search_folded(nbs, ascii_lower(ascii_lower(q))) == search_folded(nbs, ascii_lower(q)),
{
    law_ascii_case_folds_alike(q);
}

/// Search finds a notebook exactly when its name, its description, one of its
/// topics, one of its tags or one of its use cases, folded to lowercase,
/// contains the query folded to lowercase.
pub proof fn law_search_matches_fields(nbs: Seq<Notebook>, q: Seq<char>, i: int)
    requires
        0 <= i < nbs.len(),
    ensures
        search_results(nbs, q).contains(nbs[i]) <== ({
            let n = nbs[i];
            let fq = lowercase(q);
            ||| contains_chars(lowercase(n.name@), fq)
            ||| contains_chars(lowercase(n.description@), fq)
            ||| exists|j: int|
                0 <= j < n.topics@.len() && contains_chars(lowercase(#[trigger] n.topics@[j]@), fq)
            ||| exists|j: int|
                0 <= j < n.tags@.len() && contains_chars(lowercase(#[trigger] n.tags@[j]@), fq)
            ||| exists|j: int|
                0 <= j < n.use_cases@.len() && contains_chars(
                    lowercase(#[trigger] n.use_cases@[j]@),
                    fq,
                )
        }),
        forall|r: int|
            0 <= r < search_results(nbs, q).len() ==> ({
                let n = #[trigger] search_results(nbs, q)[r];
                let fq = lowercase(q);
                ||| contains_chars(lowercase(n.name@), fq)
                ||| contains_chars(lowercase(n.description@), fq)
                ||| exists|j: int|
                    0 <= j < n.topics@.len() && contains_chars(lowercase(#[trigger] n.topics@[j]@), fq)
                ||| exists|j: int|
                    0 <= j < n.tags@.len() && contains_chars(lowercase(#[trigger] n.tags@[j]@), fq)
                ||| exists|j: int|
                    0 <= j < n.use_cases@.len() && contains_chars(
                        lowercase(#[trigger] n.use_cases@[j]@),
                        fq,
                    )
            }),
{
    law_search_exact(nbs, q);
    let n = nbs[i];
    let fq = lowercase(q);
    if exists|j: int|
        0 <= j < n.topics@.len() && contains_chars(lowercase(#[trigger] n.topics@[j]@), fq) {
        let j = choose|j: int|
            0 <= j < n.topics@.len() && contains_chars(lowercase(#[trigger] n.topics@[j]@), fq);
        assert(text_matches(n.topics@[j]@, fq));
    }
    if exists|j: int|
        0 <= j < n.tags@.len() && contains_chars(lowercase(#[trigger] n.tags@[j]@), fq) {
        let j = choose|j: int|
            0 <= j < n.tags@.len() && contains_chars(lowercase(#[trigger] n.tags@[j]@), fq);
        assert(text_matches(n.tags@[j]@, fq));
    }
    if exists|j: int|
        0 <= j < n.use_cases@.len() && contains_chars(lowercase(#[trigger] n.use_cases@[j]@), fq) {
        let j = choose|j: int|
            0 <= j < n.use_cases@.len() && contains_chars(
                lowercase(#[trigger] n.use_cases@[j]@),
                fq,
            );
        assert(text_matches(n.use_cases@[j]@, fq));
    }
    assert forall|r: int| 0 <= r < search_results(nbs, q).len() implies ({
        let n = #[trigger] search_results(nbs, q)[r];
        let fq = lowercase(q);
        ||| contains_chars(lowercase(n.name@), fq)
        ||| contains_chars(lowercase(n.description@), fq)
        ||| exists|j: int|
            0 <= j < n.topics@.len() && contains_chars(lowercase(#[trigger] n.topics@[j]@), fq)
        ||| exists|j: int|
            0 <= j < n.tags@.len() && contains_chars(lowercase(#[trigger] n.tags@[j]@), fq)
        ||| exists|j: int|
            0 <= j < n.use_cases@.len() && contains_chars(lowercase(#[trigger] n.use_cases@[j]@), fq)
    }) by {
        let m = search_results(nbs, q)[r];
        assert(notebook_matches(m, lowercase(q)));
    }
}

/// A successful update leaves under the identifier a notebook whose every
/// given field equals the given value, whose every absent field keeps its old
/// value, whose identifier and creation time are unchanged and whose
/// modification time is the stamp.
pub proof fn law_update_sets_given_fields(
    v: LibraryView,
    id: Seq<char>,
    name: Option<String>,
    description: Option<String>,
    url: Option<String>,
    topics: Option<Vec<String>>,
    content_types: Option<Vec<String>>,
    use_cases: Option<Vec<String>>,
    tags: Option<Vec<String>>,
    now: i64,
)
    requires
        v.position(id) is Some,
    ensures
        ({
            let k = v.position(id)->0;
            let old = v.notebooks[k];
            let w = v.with_replaced(
                k,
                edited_notebook(old, name, description, url, topics, content_types, use_cases, tags, now),
            );
            &&& w.lookup(id) is Some
            &&& w.lookup(id)->0.id == old.id
            &&& w.lookup(id)->0.created_at == old.created_at
            &&& w.lookup(id)->0.updated_at == now
            &&& w.lookup(id)->0.name == (if name is Some { name->0 } else { old.name })
            &&& w.lookup(id)->0.description == (if description is Some { description->0 } else { old.description })
            &&& w.lookup(id)->0.url == (if url is Some { url->0 } else { old.url })
            &&& w.lookup(id)->0.topics == (if topics is Some { topics->0 } else { old.topics })
            &&& w.lookup(id)->0.content_types == (if content_types is Some { content_types->0 } else { old.content_types })
            &&& w.lookup(id)->0.use_cases == (if use_cases is Some { use_cases->0 } else { old.use_cases })
            &&& w.lookup(id)->0.tags == (if tags is Some { tags->0 } else { old.tags })
        }),
{
    law_update_then_get(
        v,
        id,
        name,
        description,
        url,
        topics,
        content_types,
        use_cases,
        tags,
        now,
        id,
    );
}

/// The most recent notebook is the last one with the greatest creation time:
/// `is_latest` holds exactly there.
pub proof fn law_latest_is_last_greatest_creation(nbs: Seq<Notebook>, k: int)
    ensures
        is_latest(nbs, k) == {
            &&& 0 <= k < nbs.len()
            &&& forall|j: int| 0 <= j < nbs.len() ==> nbs[j].created_at <= nbs[k].created_at
            &&& forall|j: int| k < j < nbs.len() ==> nbs[j].created_at < nbs[k].created_at
        },
{
}

/// At most one notebook is the most recent, and which one depends on creation
/// times alone: two libraries whose notebooks agree in creation times (whatever
/// their modification times or other fields) have the same most recent position.
pub proof fn law_latest_depends_on_creation_only(a: Seq<Notebook>, b: Seq<Notebook>, k: int, m: int)
    requires
        a.len() == b.len(),
        forall|i: int| 0 <= i < a.len() ==> a[i].created_at == b[i].created_at,
    ensures
        is_latest(a, k) == is_latest(b, k),
        is_latest(a, k) && is_latest(a, m) ==> k == m,
{
    if is_latest(a, k) && is_latest(a, m) && k != m {
        if k < m {
            assert(a[m].created_at < a[k].created_at);
            assert(a[m].created_at <= a[k].created_at);
            assert(a[k].created_at <= a[m].created_at);
        } else {
            assert(a[k].created_at < a[m].created_at);
            assert(a[m].created_at <= a[k].created_at);
        }
    }
    if is_latest(a, k) {
        assert forall|j: int| 0 <= j < b.len() implies b[j].created_at <= b[k].created_at by {
            assert(a[j].created_at <= a[k].created_at);
        }
        assert forall|j: int| k < j < b.len() implies b[j].created_at < b[k].created_at by {
            assert(a[j].created_at < a[k].created_at);
        }
    }
    if is_latest(b, k) {
        assert forall|j: int| 0 <= j < a.len() implies a[j].created_at <= a[k].created_at by {
            assert(b[j].created_at <= b[k].created_at);
        }
        assert forall|j: int| k < j < a.len() implies a[j].created_at < a[k].created_at by {
            assert(b[j].created_at < b[k].created_at);
        }
    }
}

} // verus!
