//! Decision logic of the query flow: text normalisation, the response polling
//! state machine with its stability check, and human-like delays.

use vstd::prelude::*;

use crate::error::NotebookLmError;
use crate::selectors::{
    CHAT_INPUT, CHAT_INPUT_FALLBACK, FALLBACK_TIMEOUT_MS, READY_TIMEOUT_MS, STABILITY_POLLS,
};
use crate::text::{collapse_spaces, collapse_whitespace, lowercase, to_lowercase};

verus! {

/// Result of asking a question to NotebookLM.
#[derive(Debug, Clone)]
pub struct QueryResult {
    /// The answer text from NotebookLM.
    pub answer: String,
    /// Session ID used for this conversation.
    pub session_id: String,
    /// Notebook ID queried.
    pub notebook_id: String,
    /// Whether a rate limit was detected after this query.
    pub rate_limited: bool,
    /// Time taken for the query (ms).
    pub duration_ms: u64,
}

/// The normal form of a text: words separated by single spaces, lowercase.
pub open spec fn normalized(text: Seq<char>) -> Seq<char> {
    lowercase(collapse_whitespace(text))
}

/// Normalize text for comparison (trim, collapse whitespace, lowercase).
pub fn normalize_text(text: &str) -> (r: String)
    ensures
        r@ == normalized(text@),
{
    let collapsed = collapse_spaces(text);
    to_lowercase(collapsed.as_str())
}

/// The delay drawn from `entropy` in `[min_ms, max_ms]`: `min_ms` when the range
/// is empty or a single point, else `min_ms + entropy % (max_ms - min_ms + 1)`.
pub open spec fn delay_in_range(min_ms: u64, max_ms: u64, entropy: u64) -> int {
    if min_ms >= max_ms {
        min_ms as int
    } else {
        min_ms + (entropy as int) % (max_ms - min_ms + 1)
    }
}

/// A range `[min_ms, max_ms]` whose width fits in a `u64`.
pub open spec fn delay_range_ok(min_ms: u64, max_ms: u64) -> bool {
    min_ms < max_ms ==> max_ms - min_ms < u64::MAX
}

/// Pick a delay in `[min_ms, max_ms]` from a source of entropy.
pub fn delay_from_entropy(min_ms: u64, max_ms: u64, entropy: u64) -> (r: u64)
    requires
        delay_range_ok(min_ms, max_ms),
    ensures
        r == delay_in_range(min_ms, max_ms, entropy),
        min_ms < max_ms ==> min_ms <= r <= max_ms,
        min_ms >= max_ms ==> r == min_ms,
{
    if min_ms >= max_ms {
        return min_ms;
    }
    let width: u64 = max_ms - min_ms + 1;
    min_ms + entropy % width
}

/// The time elapsed since `UNIX_EPOCH` on the system clock, by
/// `SystemTime::elapsed`, in whole nanoseconds (`Duration::as_nanos`); `None`
/// when the clock reads before the epoch. Which instant is read depends on the
/// clock.
#[verifier::external_body]
fn nanos_since_epoch() -> (r: Option<u128>) {
    match std::time::UNIX_EPOCH.elapsed() {
        Ok(d) => Some(d.as_nanos()),
        Err(_) => None,
    }
}

/// The nanoseconds within the current second of the system clock
/// (`Duration::subsec_nanos` of the time since the epoch); `None` when the clock
/// reads before the epoch.
fn clock_subsec_nanos() -> (r: Option<u32>)
    ensures
        r matches Some(n) ==> n < 1_000_000_000,
{
    match nanos_since_epoch() {
        Some(total) => Some((total % 1_000_000_000) as u32),
        None => None,
    }
}

/// Generate a delay in the given range (inclusive), drawn from the sub-second
/// nanoseconds of the system clock (or `min_ms` when the clock reads before the
/// epoch).
pub fn random_delay(min_ms: u64, max_ms: u64) -> (r: u64)
    requires
        delay_range_ok(min_ms, max_ms),
    ensures
        min_ms < max_ms ==> min_ms <= r <= max_ms,
        min_ms >= max_ms ==> r == min_ms,
        exists|entropy: u64|
            (entropy < 1_000_000_000 || entropy == min_ms) && r == #[trigger] delay_in_range(
                min_ms,
                max_ms,
                entropy,
            ),
{
    let entropy: u64 = match clock_subsec_nanos() {
        Some(n) => n as u64,
        None => min_ms,
    };
    let r = delay_from_entropy(min_ms, max_ms, entropy);
    assert(r == delay_in_range(min_ms, max_ms, entropy));
    r
}

/// Where the wait for the chat input stands: watching the primary selector,
/// then the localized fallback, then given up.
pub enum ReadyPhase {
    /// Watching `CHAT_INPUT`.
    Primary,
    /// Watching `CHAT_INPUT_FALLBACK`.
    Fallback,
    /// Neither became visible in time.
    GaveUp,
}

/// The selector to watch in a phase and how long to watch it (ms); `None` once
/// the wait has been given up.
pub fn ready_watch(phase: &ReadyPhase) -> (r: Option<(&'static str, u64)>)
    ensures
        match phase {
            ReadyPhase::Primary => r matches Some((sel, ms)) && sel@ == CHAT_INPUT@ && ms
                == READY_TIMEOUT_MS,
            ReadyPhase::Fallback => r matches Some((sel, ms)) && sel@ == CHAT_INPUT_FALLBACK@ && ms
                == FALLBACK_TIMEOUT_MS,
            ReadyPhase::GaveUp => r is None,
        },
{
    match phase {
        ReadyPhase::Primary => Some((CHAT_INPUT, READY_TIMEOUT_MS)),
        ReadyPhase::Fallback => Some((CHAT_INPUT_FALLBACK, FALLBACK_TIMEOUT_MS)),
        ReadyPhase::GaveUp => None,
    }
}

/// The phase after the watch of `phase` timed out.
pub fn ready_timed_out(phase: ReadyPhase) -> (r: ReadyPhase)
    ensures
        match phase {
            ReadyPhase::Primary => r is Fallback,
            _ => r is GaveUp,
        },
{
    match phase {
        ReadyPhase::Primary => ReadyPhase::Fallback,
        _ => ReadyPhase::GaveUp,
    }
}

/// The error reported when the chat input never became visible.
pub fn chat_not_ready_error() -> (e: NotebookLmError)
    ensures
        e matches NotebookLmError::Other(m) && m@
            == "chat interface did not become ready within timeout"@,
{
    NotebookLmError::Other(String::from_str("chat interface did not become ready within timeout"))
}

/// What one poll of the page leads to.
pub enum PollStep {
    /// Keep polling.
    Continue,
    /// The response is complete.
    Done(String),
}

/// State of the wait for a response: the normalized question, the last text
/// seen and for how many consecutive polls it has been seen.
pub struct ResponsePoller {
    question_normalized: String,
    last_text: String,
    stable_count: usize,
}

/// Abstract poller state.
pub struct ResponsePollerView {
    pub question_normalized: Seq<char>,
    pub last_text: Seq<char>,
    pub stable_count: nat,
}

impl View for ResponsePoller {
    type V = ResponsePollerView;

    closed spec fn view(&self) -> ResponsePollerView {
        ResponsePollerView {
            question_normalized: self.question_normalized@,
            last_text: self.last_text@,
            stable_count: self.stable_count as nat,
        }
    }
}

/// What observing the page gives: the next state and whether the response is
/// complete. A visible thinking indicator, an empty text or an echo of the
/// question resets the count; a text seen again raises it and completes the
/// response on the `STABILITY_POLLS`-th sighting; a new text starts a count of one.
pub open spec fn poll_transition(
    s: ResponsePollerView,
    thinking: bool,
    current: Seq<char>,
) -> (ResponsePollerView, Option<Seq<char>>) {
    if thinking {
        (ResponsePollerView { stable_count: 0, ..s }, None)
    } else if current.len() == 0 || normalized(current) == s.question_normalized {
        (ResponsePollerView { stable_count: 0, ..s }, None)
    } else if current == s.last_text {
        let n = s.stable_count + 1;
        (
            ResponsePollerView { stable_count: n, ..s },
            if n >= STABILITY_POLLS {
                Some(current)
            } else {
                None
            },
        )
    } else {
        (ResponsePollerView { stable_count: 1, last_text: current, ..s }, None)
    }
}

impl ResponsePoller {
    /// The poller is still waiting: fewer than `STABILITY_POLLS` identical polls seen.
    pub open spec fn is_waiting(&self) -> bool {
        self@.stable_count < STABILITY_POLLS
    }

    /// Start waiting for the answer to `question`.
    pub fn new(question: &str) -> (r: Self)
        ensures
            r@.question_normalized == normalized(question@),
            r@.last_text == Seq::<char>::empty(),
            r@.stable_count == 0,
            r.is_waiting(),
    {
        ResponsePoller {
            question_normalized: normalize_text(question),
            last_text: String::new(),
            stable_count: 0,
        }
    }

    /// Take one poll: whether the thinking indicator is visible and the text of
    /// the latest response.
    pub fn observe(&mut self, thinking: bool, current_text: String) -> (r: PollStep)
        requires
            old(self).is_waiting(),
        ensures
            final(self)@ == poll_transition(old(self)@, thinking, current_text@).0,
            match r {
                PollStep::Continue => poll_transition(old(self)@, thinking, current_text@).1 is None
                    && final(self).is_waiting(),
                PollStep::Done(t) => poll_transition(old(self)@, thinking, current_text@).1 == Some(
                    t@,
                ),
            },
    {
        if thinking {
            self.stable_count = 0;
            return PollStep::Continue;
        }
        let empty = current_text.as_str().is_empty();
        if empty {
            self.stable_count = 0;
            return PollStep::Continue;
        }
        let normalized_text = normalize_text(current_text.as_str());
        if normalized_text == self.question_normalized {
            self.stable_count = 0;
            return PollStep::Continue;
        }
        if current_text == self.last_text {
            self.stable_count = self.stable_count + 1;
            if self.stable_count >= STABILITY_POLLS {
                return PollStep::Done(current_text);
            }
            PollStep::Continue
        } else {
            self.stable_count = 1;
            self.last_text = current_text;
            PollStep::Continue
        }
    }

    /// The outcome when the wait times out: whatever text was last seen, or an
    /// error when none was.
    pub fn finish(&self) -> (r: Result<String, NotebookLmError>)
        ensures
            match r {
                Ok(t) => t@ == self@.last_text && t@.len() > 0,
                Err(e) => {
                    &&& self@.last_text.len() == 0
                    &&& e matches NotebookLmError::Other(m) && m@ == "no response received within timeout"@
                },
            },
    {
        if self.last_text.as_str().is_empty() {
            Err(NotebookLmError::Other(String::from_str("no response received within timeout")))
        } else {
            Ok(self.last_text.clone())
        }
    }
}

/// The poller state after a sequence of observations (thinking, latest text).
pub open spec fn run_polls(s: ResponsePollerView, obs: Seq<(bool, Seq<char>)>) -> ResponsePollerView
    decreases obs.len(),
{
    if obs.len() == 0 {
        s
    } else {
        poll_transition(run_polls(s, obs.drop_last()), obs.last().0, obs.last().1).0
    }
}

/// From a fresh count, the count is the number of latest observations that all
/// showed, with no thinking indicator, the same text; that text is not empty
/// and not an echo of the question.
pub proof fn law_count_is_consecutive_repeats(s0: ResponsePollerView, obs: Seq<(bool, Seq<char>)>)
    requires
        s0.stable_count == 0,
    ensures
        ({
            let s = run_polls(s0, obs);
            &&& s.question_normalized == s0.question_normalized
            &&& s.stable_count <= obs.len()
            &&& forall|i: int|
                0 <= i < s.stable_count ==> #[trigger] obs[obs.len() - 1 - i] == (false, s.last_text)
            &&& s.stable_count > 0 ==> s.last_text.len() > 0 && normalized(s.last_text)
                != s0.question_normalized
        }),
    decreases obs.len(),
{
    if obs.len() > 0 {
        let rest = obs.drop_last();
        law_count_is_consecutive_repeats(s0, rest);
        let p = run_polls(s0, rest);
        let s = run_polls(s0, obs);
        assert forall|i: int| 0 <= i < s.stable_count implies #[trigger] obs[obs.len() - 1 - i] == (
            false,
            s.last_text,
        ) by {
            if i > 0 {
                assert(obs[obs.len() - 1 - i] == rest[rest.len() - 1 - (i - 1)]);
            }
        }
    }
}

/// A response is reported complete only after `STABILITY_POLLS` consecutive
/// observations without the thinking indicator showed the same text, which is
/// not empty and not an echo of the question.
pub proof fn law_done_after_stable_repeats(
    s0: ResponsePollerView,
    obs: Seq<(bool, Seq<char>)>,
    thinking: bool,
    current: Seq<char>,
    t: Seq<char>,
)
    requires
        s0.stable_count == 0,
        poll_transition(run_polls(s0, obs), thinking, current).1 == Some(t),
    ensures
        ({
            let all = obs.push((thinking, current));
            &&& all.len() >= STABILITY_POLLS
            &&& forall|i: int| 0 <= i < STABILITY_POLLS ==> #[trigger] all[all.len() - 1 - i] == (false, t)
            &&& t.len() > 0
            &&& normalized(t) != s0.question_normalized
        }),
{
    let all = obs.push((thinking, current));
    assert(all.drop_last() == obs);
    law_count_is_consecutive_repeats(s0, all);
}

/// From a fresh poller, the text kept as the latest is either empty or a real
/// answer: never an echo of the question. So the partial text that `finish`
/// returns on timeout is never the question itself.
pub proof fn law_kept_text_is_not_echo(s0: ResponsePollerView, obs: Seq<(bool, Seq<char>)>)
    requires
        s0.last_text.len() == 0,
    ensures
        run_polls(s0, obs).question_normalized == s0.question_normalized,
        run_polls(s0, obs).last_text.len() > 0 ==> normalized(run_polls(s0, obs).last_text)
            != s0.question_normalized,
    decreases obs.len(),
{
    if obs.len() > 0 {
        law_kept_text_is_not_echo(s0, obs.drop_last());
    }
}

} // verus!
