//! The "now playing" information line: its refresh schedule and what it shows for each answer
//! of the background fetch.
//!
//! The fetch itself runs elsewhere (a background thread that asks the music player); this module
//! decides, each time the clock redraws, what the line shows and whether a new fetch starts.
use vstd::prelude::*;
use vstd::string::StringExecFns;

use crate::config::NowPlayingConfig;
use crate::report::{display_error, display_error_text, law_display_error_is_one_short_line};
use crate::text::{string_from_chars, to_chars, trim, trim_chars};

verus! {

broadcast use vstd::string::group_string_axioms;

/// What polling the channel of a running background fetch gave.
pub enum Poll<T> {
    /// The fetch has not answered yet.
    Empty,
    /// The fetch ended without answering.
    Disconnected,
    /// The fetch answered.
    Received(T),
}

/// What a now-playing fetch answers: the track (`None` when nothing plays), or why it failed.
pub type FetchResult = Result<Option<String>, String>;

/// The view of an optional string.
pub open spec fn opt_view(o: Option<String>) -> Option<Seq<char>> {
    match o {
        Some(s) => Some(s@),
        None => None,
    }
}

/// The abstract state of a [`NowPlaying`].
pub struct NowPlayingState {
    /// Seconds between two fetches.
    pub refresh_interval_secs: nat,
    /// The line shown, once a fetch answered.
    pub line: Option<Seq<char>>,
    /// Whether a fetch runs.
    pub in_flight: bool,
}

/// The now-playing information line.
pub struct NowPlaying {
    refresh_interval_secs: u64,
    line: Option<String>,
    in_flight: bool,
}

impl View for NowPlaying {
    type V = NowPlayingState;

    closed spec fn view(&self) -> NowPlayingState {
        NowPlayingState {
            refresh_interval_secs: self.refresh_interval_secs as nat,
            line: opt_view(self.line),
            in_flight: self.in_flight,
        }
    }
}

/// The prefix of the line's error reports.
pub open spec fn error_prefix() -> Seq<char> {
    "Now playing error: "@
}

/// The line shown for the answer of a fetch.
pub open spec fn line_for(result: FetchResult) -> Seq<char> {
    match result {
        Ok(Some(track)) => "♪ "@ + track@,
        Ok(None) => "♪ No song playing"@,
        Err(err) => display_error_text(error_prefix(), err@),
    }
}

/// The state after the channel of the running fetch was polled; `None` when the fetch has not
/// answered yet (then nothing else happens).
pub open spec fn after_poll(st: NowPlayingState, polled: Option<Poll<FetchResult>>) -> Option<
    NowPlayingState,
> {
    match polled {
        None => Some(st),
        Some(Poll::Empty) => None,
        Some(Poll::Disconnected) => Some(
            NowPlayingState {
                line: Some(display_error_text(error_prefix(), "background updater disconnected"@)),
                in_flight: false,
                ..st
            },
        ),
        Some(Poll::Received(result)) => Some(
            NowPlayingState { line: Some(line_for(result)), in_flight: false, ..st },
        ),
    }
}

/// Whether a fetch is due: none runs, and none started, or the last one started at least the
/// refresh interval ago (`since_last_fetch_nanos` is the time since it started, in
/// nanoseconds).
pub open spec fn fetch_due(st: NowPlayingState, since_last_fetch_nanos: Option<u128>) -> bool {
    &&& !st.in_flight
    &&& match since_last_fetch_nanos {
        Some(elapsed) => elapsed >= st.refresh_interval_secs * 1_000_000_000,
        None => true,
    }
}

/// One update of the line: the state after it, and whether a new fetch starts.
pub open spec fn updated(
    st: NowPlayingState,
    polled: Option<Poll<FetchResult>>,
    since_last_fetch_nanos: Option<u128>,
) -> (NowPlayingState, bool) {
    match after_poll(st, polled) {
        None => (st, false),
        Some(s) => if fetch_due(s, since_last_fetch_nanos) {
            (NowPlayingState { in_flight: true, ..s }, true)
        } else {
            (s, false)
        },
    }
}

/// What a finished music-player query gives: when the query failed, the reason (see
/// [`failure_reason_text`](crate::report::failure_reason_text)); else the trimmed output, or
/// `None` when it is empty.
pub open spec fn fetch_result_text(
    success: bool,
    stdout: Seq<char>,
    stderr: Seq<char>,
    status: Seq<char>,
) -> Result<Option<Seq<char>>, Seq<char>> {
    if !success {
        Err(crate::report::failure_reason_text("osascript"@, stdout, stderr, status))
    } else if trim(stdout).len() == 0 {
        Ok(None)
    } else {
        Ok(Some(trim(stdout)))
    }
}

impl NowPlaying {
    /// The line for a configuration: none when the line is disabled; else a line with nothing
    /// shown yet, no fetch running, and a refresh interval of the configured seconds (at least
    /// one).
    pub fn from_config(config: NowPlayingConfig) -> (r: Option<Self>)
        ensures
            !config.enabled ==> r is None,
            config.enabled ==> r is Some && r->0@ == (NowPlayingState {
                refresh_interval_secs: if config.refresh_interval_seconds == 0 {
                    1
                } else {
                    config.refresh_interval_seconds as nat
                },
                line: None,
                in_flight: false,
            }),
    {
        if !config.enabled {
            return None;
        }
        let secs = if config.refresh_interval_seconds < 1 {
            1
        } else {
            config.refresh_interval_seconds
        };
        Some(NowPlaying { refresh_interval_secs: secs, line: None, in_flight: false })
    }

    /// The line shown, once a fetch answered.
    pub fn line(&self) -> (r: Option<&str>)
        ensures
            match r {
                Some(s) => self@.line == Some(s@),
                None => self@.line is None,
            },
    {
        match &self.line {
            Some(s) => Some(s.as_str()),
            None => None,
        }
    }

    /// Whether a fetch runs.
    pub fn is_loading(&self) -> (r: bool)
        ensures
            r == self@.in_flight,
    {
        self.in_flight
    }

    /// Seconds between two fetches.
    pub fn refresh_interval_secs(&self) -> (r: u64)
        ensures
            r == self@.refresh_interval_secs,
    {
        self.refresh_interval_secs
    }

    /// Formats an error for the line.
    pub fn format_display_error(err: &str) -> (r: String)
        ensures
            r@ == display_error_text(error_prefix(), err@),
    {
        display_error("Now playing error: ", err)
    }

    /// The line for the answer of a fetch.
    fn line_for_result(result: FetchResult) -> (r: String)
        ensures
            r@ == line_for(result),
    {
        match result {
            Ok(Some(track)) => {
                let mut line = String::from_str("♪ ");
                line.append(track.as_str());
                line
            },
            Ok(None) => String::from_str("♪ No song playing"),
            Err(err) => Self::format_display_error(err.as_str()),
        }
    }

    /// Updates the line as the clock redraws. `polled` is what polling the channel of the running
    /// fetch gave (`None` when no fetch runs); `since_last_fetch_nanos` is the time since the last
    /// fetch started, in nanoseconds (`None` when none started). An answer replaces the line and
    /// ends the fetch; then, when no fetch runs and the refresh interval has passed, a new fetch
    /// is due: the result says so, and the caller starts it.
    pub fn update_if_due(
        &mut self,
        polled: Option<Poll<FetchResult>>,
        since_last_fetch_nanos: Option<u128>,
    ) -> (start_fetch: bool)
        ensures
            (final(self)@, start_fetch) == updated(old(self)@, polled, since_last_fetch_nanos),
    {
        match polled {
            Some(Poll::Received(result)) => {
                self.line = Some(Self::line_for_result(result));
                self.in_flight = false;
            },
            Some(Poll::Disconnected) => {
                self.line = Some(Self::format_display_error("background updater disconnected"));
                self.in_flight = false;
            },
            Some(Poll::Empty) => {
                return false;
            },
            None => {},
        }
        if self.in_flight {
            return false;
        }
        let interval_nanos: u128 = (self.refresh_interval_secs as u128) * 1_000_000_000;
        match since_last_fetch_nanos {
            Some(elapsed) => {
                if elapsed < interval_nanos {
                    return false;
                }
            },
            None => {},
        }
        self.in_flight = true;
        true
    }

    /// What a finished music-player query gives (see [`fetch_result_text`]); `status` is the
    /// exit status as std displays it.
    pub fn fetch_result(success: bool, stdout: &str, stderr: &str, status: &str) -> (r:
        FetchResult)
        ensures
            match (r, fetch_result_text(success, stdout@, stderr@, status@)) {
                (Ok(Some(line)), Ok(Some(text))) => line@ == text,
                (Ok(None), Ok(None)) => true,
                (Err(e), Err(text)) => e@ == text,
                _ => false,
            },
    {
        if !success {
            return Err(crate::report::failure_reason("osascript", stdout, stderr, status));
        }
        let chars = to_chars(stdout);
        let line = trim_chars(chars.as_slice());
        if line.len() == 0 {
            return Ok(None);
        }
        Ok(Some(string_from_chars(line.as_slice())))
    }
}

/// At most one fetch runs at a time: while a fetch runs and has not answered, no other starts;
/// and a fetch that starts is marked as running.
pub proof fn law_one_fetch_at_a_time(
    st: NowPlayingState,
    polled: Option<Poll<FetchResult>>,
    since_last_fetch_nanos: Option<u128>,
)
    ensures
        st.in_flight && (polled is None || polled == Some(Poll::<FetchResult>::Empty)) ==> !updated(
            st,
            polled,
            since_last_fetch_nanos,
        ).1,
        updated(st, polled, since_last_fetch_nanos).1 ==> updated(
            st,
            polled,
            since_last_fetch_nanos,
        ).0.in_flight,
{
}

/// Fetches keep the refresh interval: a fetch starts only when none started before or the last
/// one started at least the refresh interval ago.
pub proof fn law_refresh_interval_kept(
    st: NowPlayingState,
    polled: Option<Poll<FetchResult>>,
    since_last_fetch_nanos: Option<u128>,
)
    ensures
        updated(st, polled, since_last_fetch_nanos).1 ==> match since_last_fetch_nanos {
            Some(elapsed) => elapsed >= st.refresh_interval_secs * 1_000_000_000,
            None => true,
        },
{
}

/// An answer of the fetch always shows on the line and ends the fetch: the line becomes the
/// text for that answer.
pub proof fn law_answer_shows(
    st: NowPlayingState,
    result: FetchResult,
    since_last_fetch_nanos: Option<u128>,
)
    ensures
        updated(st, Some(Poll::Received(result)), since_last_fetch_nanos).0.line == Some(
            line_for(result),
        ),
{
}

/// The refresh interval never changes, and a line once shown is never removed.
pub proof fn law_interval_and_line_kept(
    st: NowPlayingState,
    polled: Option<Poll<FetchResult>>,
    since_last_fetch_nanos: Option<u128>,
)
    ensures
        updated(st, polled, since_last_fetch_nanos).0.refresh_interval_secs
            == st.refresh_interval_secs,
        st.line is Some ==> updated(st, polled, since_last_fetch_nanos).0.line is Some,
{
}

/// One update of the line, as a trace records it: what polling gave, and the time since the last
/// fetch started.
pub type UpdateEvent = (Option<Poll<FetchResult>>, Option<u128>);

/// The state after a sequence of updates.
pub open spec fn run_updates(st: NowPlayingState, events: Seq<UpdateEvent>) -> NowPlayingState
    decreases events.len(),
{
    if events.len() == 0 {
        st
    } else {
        let e = events.last();
        updated(run_updates(st, events.drop_last()), e.0, e.1).0
    }
}

/// Whether the `i`-th update of a trace started a fetch.
pub open spec fn started_fetch(st: NowPlayingState, events: Seq<UpdateEvent>, i: int) -> bool {
    &&& 0 <= i < events.len()
    &&& updated(run_updates(st, events.take(i)), events[i].0, events[i].1).1
}

/// Whether an update takes in the answer of a fetch (its result, or that it ended without one).
pub open spec fn consumes_answer(e: UpdateEvent) -> bool {
    e.0 matches Some(p) && (p is Received || p is Disconnected)
}

/// A line that starts with no fetch running (as [`NowPlaying::from_config`] makes it) is loading
/// after a trace of updates exactly when some update of the trace started a fetch and no later
/// update took in an answer; looking at whether it loads changes nothing.
pub proof fn law_loading_iff_fetch_unanswered(st: NowPlayingState, events: Seq<UpdateEvent>)
    requires
        !st.in_flight,
    ensures
        run_updates(st, events).in_flight <==> exists|i: int|
            started_fetch(st, events, i) && forall|j: int|
                i < j < events.len() ==> !consumes_answer(#[trigger] events[j]),
    decreases events.len(),
{
    if events.len() == 0 {
        assert(!(exists|i: int|
            started_fetch(st, events, i) && forall|j: int|
                i < j < events.len() ==> !consumes_answer(#[trigger] events[j])));
    } else {
        let p = events.drop_last();
        let n = events.len() - 1;
        law_loading_iff_fetch_unanswered(st, p);
        assert(events.take(n) =~= p);
        assert forall|i: int| 0 <= i < n implies started_fetch(st, events, i) == started_fetch(
            st,
            p,
            i,
        ) by {
            assert(p.take(i) =~= events.take(i));
            assert(p[i] == events[i]);
        }
        if run_updates(st, events).in_flight {
            if !started_fetch(st, events, n) {
                let i = choose|i: int|
                    started_fetch(st, p, i) && forall|j: int|
                        i < j < p.len() ==> !consumes_answer(#[trigger] p[j]);
                assert(started_fetch(st, events, i));
                assert forall|j: int| i < j < events.len() implies !consumes_answer(
                    #[trigger] events[j],
                ) by {
                    if j < n {
                        assert(events[j] == p[j]);
                    }
                }
            }
        } else {
            if exists|i: int|
                started_fetch(st, events, i) && forall|j: int|
                    i < j < events.len() ==> !consumes_answer(#[trigger] events[j]) {
                let i = choose|i: int|
                    started_fetch(st, events, i) && forall|j: int|
                        i < j < events.len() ==> !consumes_answer(#[trigger] events[j]);
                if i < n {
                    assert(!consumes_answer(events[n]));
                    assert(started_fetch(st, p, i));
                    assert forall|j: int| i < j < p.len() implies !consumes_answer(
                        #[trigger] p[j],
                    ) by {
                        assert(events[j] == p[j]);
                    }
                    assert(run_updates(st, p).in_flight);
                }
            }
        }
    }
}

/// Whether a line has the shape of a shown now-playing line: a track line, which starts with
/// `♪ `, or an error report, which starts with [`error_prefix`].
pub open spec fn is_shown_line(l: Seq<char>) -> bool {
    "♪ "@.is_prefix_of(l) || error_prefix().is_prefix_of(l)
}

proof fn lemma_error_report_shape(err: Seq<char>)
    ensures
        is_shown_line(display_error_text(error_prefix(), err)),
{
    law_display_error_is_one_short_line(error_prefix(), err);
    let r = display_error_text(error_prefix(), err);
    assert(r.len() >= error_prefix().len());
    assert(r.subrange(0, error_prefix().len() as int) =~= r.take(error_prefix().len() as int));
}

proof fn lemma_line_for_shape(result: FetchResult)
    ensures
        is_shown_line(line_for(result)),
{
    match result {
        Ok(Some(track)) => {
            let l = "♪ "@ + track@;
            assert(l.subrange(0, "♪ "@.len() as int) =~= "♪ "@);
        },
        Ok(None) => {
            reveal_strlit("♪ ");
            reveal_strlit("♪ No song playing");
            assert("♪ No song playing"@.subrange(0, 2) =~= "♪ "@);
        },
        Err(err) => {
            lemma_error_report_shape(err@);
        },
    }
}

/// A line that starts with nothing shown (as [`NowPlaying::from_config`] makes it) shows nothing
/// after a trace of updates exactly when no update of the trace took in an answer of a fetch;
/// from the first answer on it always shows a line, and every line it shows is a track line
/// (starting with `♪ `) or an error report (starting with [`error_prefix`]).
pub proof fn law_line_shown_from_first_answer(st: NowPlayingState, events: Seq<UpdateEvent>)
    requires
        st.line is None,
    ensures
        run_updates(st, events).line is None <==> forall|j: int|
            0 <= j < events.len() ==> !consumes_answer(#[trigger] events[j]),
        run_updates(st, events).line matches Some(l) ==> is_shown_line(l),
    decreases events.len(),
{
    if events.len() > 0 {
        let p = events.drop_last();
        let n = events.len() - 1;
        let e = events.last();
        law_line_shown_from_first_answer(st, p);
        let before = run_updates(st, p);
        assert(run_updates(st, events) == updated(before, e.0, e.1).0);
        match e.0 {
            Some(Poll::Received(result)) => {
                lemma_line_for_shape(result);
            },
            Some(Poll::Disconnected) => {
                lemma_error_report_shape("background updater disconnected"@);
            },
            _ => {},
        }
        if consumes_answer(e) {
            assert(consumes_answer(events[n]));
        } else {
            assert(run_updates(st, events).line == before.line);
            assert forall|j: int| 0 <= j < p.len() implies events[j] == p[j] by {}
            if before.line is None {
                assert forall|j: int| 0 <= j < events.len() implies !consumes_answer(
                    #[trigger] events[j],
                ) by {
                    if j < n {
                        assert(events[j] == p[j]);
                    }
                }
            } else {
                let k = choose|j: int| 0 <= j < p.len() && consumes_answer(#[trigger] p[j]);
                assert(events[k] == p[k]);
            }
        }
    }
}

} // verus!
