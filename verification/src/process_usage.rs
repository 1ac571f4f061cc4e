//! The process-usage information line: its refresh schedule, how a process is named, and the
//! text in front of the usage figure.
//!
//! The usage figures are floating-point percentages, so the line's data stays a type of the
//! caller's (`L` below); this module keeps the schedule and the decisions about it.
use vstd::prelude::*;
use vstd::string::{StrSliceExecFns, StringExecFns};

use crate::now_playing::Poll;
use crate::text::{
    join, join_chars, words, words_chars,
    contains_exec, contains_seq, copy_range, is_whitespace, is_whitespace_char, split_chars,
    split_on, string_from_chars, to_chars, trim, trim_chars, views,
};

verus! {

broadcast use vstd::string::group_string_axioms;

/// Which resource a process uses heavily.
#[derive(Clone, Copy, Debug, PartialEq, Eq, Structural)]
pub enum Metric {
    Cpu,
    Ram,
}

impl Metric {
    /// How the metric is named on the line.
    pub fn label(self) -> (r: &'static str)
        ensures
            r@ == (match self {
                Metric::Cpu => "CPU"@,
                Metric::Ram => "RAM"@,
            }),
    {
        match self {
            Metric::Cpu => "CPU",
            Metric::Ram => "RAM",
        }
    }
}

/// The seconds between two process-usage fetches.
pub const REFRESH_INTERVAL_SECS: u64 = 2;

/// The abstract state of a [`ProcessUsage`].
pub struct ProcessUsageState<L> {
    /// The data of the line, when the last fetch found a process.
    pub line: Option<L>,
    /// Whether a fetch runs.
    pub in_flight: bool,
}

/// The process-usage information line, with line data of type `L`.
pub struct ProcessUsage<L> {
    line: Option<L>,
    in_flight: bool,
}

impl<L> View for ProcessUsage<L> {
    type V = ProcessUsageState<L>;

    closed spec fn view(&self) -> ProcessUsageState<L> {
        ProcessUsageState { line: self.line, in_flight: self.in_flight }
    }
}

/// One update of the line: the state after it and whether a new fetch starts. An answer with
/// line data replaces the line; a failed fetch, or one that ended without answering, clears it;
/// both end the fetch. While a fetch runs without answering nothing changes. Then a fetch is due
/// when none runs and none started, or the last started at least [`REFRESH_INTERVAL_SECS`]
/// seconds ago (`since_last_fetch_nanos`, in nanoseconds).
pub open spec fn usage_updated<L>(
    st: ProcessUsageState<L>,
    polled: Option<Poll<Result<Option<L>, String>>>,
    since_last_fetch_nanos: Option<u128>,
) -> (ProcessUsageState<L>, bool) {
    let after = match polled {
        None => Some(st),
        Some(Poll::Empty) => None,
        Some(Poll::Disconnected) => Some(ProcessUsageState { line: None, in_flight: false }),
        Some(Poll::Received(Err(_))) => Some(ProcessUsageState { line: None, in_flight: false }),
        Some(Poll::Received(Ok(sample))) => Some(
            ProcessUsageState { line: sample, in_flight: false },
        ),
    };
    match after {
        None => (st, false),
        Some(s) => {
            let due = !s.in_flight && match since_last_fetch_nanos {
                Some(elapsed) => elapsed >= REFRESH_INTERVAL_SECS * 1_000_000_000,
                None => true,
            };
            if due {
                (ProcessUsageState { in_flight: true, ..s }, true)
            } else {
                (s, false)
            }
        },
    }
}

impl<L> ProcessUsage<L> {
    /// A line with no data and no fetch running.
    pub fn new() -> (r: Self)
        ensures
            r@.line is None,
            !r@.in_flight,
    {
        ProcessUsage { line: None, in_flight: false }
    }

    /// The data of the line, when the last fetch found a process.
    pub fn line_data(&self) -> (r: Option<&L>)
        ensures
            match r {
                Some(l) => self@.line == Some(*l),
                None => self@.line is None,
            },
    {
        match &self.line {
            Some(l) => Some(l),
            None => None,
        }
    }

    /// Whether a fetch runs.
    pub fn is_loading(&self) -> (r: bool)
        ensures
            r == self@.in_flight,
    {
        self.in_flight
    }

    /// Updates the line as the clock redraws (see [`usage_updated`]); when the result is `true`
    /// the caller starts a new fetch.
    pub fn update_if_due(
        &mut self,
        polled: Option<Poll<Result<Option<L>, String>>>,
        since_last_fetch_nanos: Option<u128>,
    ) -> (start_fetch: bool)
        ensures
            (final(self)@, start_fetch) == usage_updated(
                old(self)@,
                polled,
                since_last_fetch_nanos,
            ),
    {
        match polled {
            Some(Poll::Received(Ok(sample))) => {
                self.line = sample;
                self.in_flight = false;
            },
            Some(Poll::Received(Err(_))) => {
                self.line = None;
                self.in_flight = false;
            },
            Some(Poll::Disconnected) => {
                self.line = None;
                self.in_flight = false;
            },
            Some(Poll::Empty) => {
                return false;
            },
            None => {},
        }
        if self.in_flight {
            return false;
        }
        match since_last_fetch_nanos {
            Some(elapsed) => {
                if elapsed < (REFRESH_INTERVAL_SECS as u128) * 1_000_000_000 {
                    return false;
                }
            },
            None => {},
        }
        self.in_flight = true;
        true
    }
}

/// The leading run of non-whitespace chars of `s`.
pub open spec fn leading_word(s: Seq<char>) -> Seq<char>
    decreases s.len(),
{
    if s.len() == 0 || is_whitespace(s[0]) {
        Seq::empty()
    } else {
        seq![s[0]] + leading_word(s.drop_first())
    }
}

/// The last piece, counted from the end, that is not empty.
pub open spec fn last_nonempty(parts: Seq<Seq<char>>) -> Option<Seq<char>>
    decreases parts.len(),
{
    if parts.len() == 0 {
        None
    } else if parts.last().len() > 0 {
        Some(parts.last())
    } else {
        last_nonempty(parts.drop_last())
    }
}

/// The name under which a process is shown, from the command line that `ps` lists: nothing for
/// a blank command line; else its first word (the executable), and when that holds a `'/'`, its
/// last non-empty `'/'`-separated piece (the file name), or the whole word when there is none.
pub open spec fn process_name_text(raw: Seq<char>) -> Seq<char> {
    let t = trim(raw);
    if t.len() == 0 {
        Seq::empty()
    } else {
        let exe = leading_word(t);
        if contains_seq(exe, seq!['/']) {
            match last_nonempty(split_on(exe, '/')) {
                Some(piece) => piece,
                None => exe,
            }
        } else {
            exe
        }
    }
}

proof fn lemma_leading_word_step(s: Seq<char>, j: int)
    requires
        0 <= j < s.len(),
        forall|k: int| 0 <= k < j ==> !is_whitespace(#[trigger] s[k]),
    ensures
        leading_word(s.skip(j)) == if is_whitespace(s[j]) {
            Seq::<char>::empty()
        } else {
            seq![s[j]] + leading_word(s.skip(j + 1))
        },
{
    assert(s.skip(j).drop_first() =~= s.skip(j + 1));
}

/// `s.take(j)` followed by the leading word after it is the leading word of `s`, when the first
/// `j` chars are not whitespace.
proof fn lemma_leading_word_prefix(s: Seq<char>, j: int)
    requires
        0 <= j <= s.len(),
        forall|k: int| 0 <= k < j ==> !is_whitespace(#[trigger] s[k]),
    ensures
        leading_word(s) == s.take(j) + leading_word(s.skip(j)),
    decreases j,
{
    if j > 0 {
        lemma_leading_word_prefix(s, j - 1);
        lemma_leading_word_step(s, j - 1);
        assert(s.take(j) =~= s.take(j - 1).push(s[j - 1]));
        assert(s.take(j - 1) + (seq![s[j - 1]] + leading_word(s.skip(j))) =~= s.take(j)
            + leading_word(s.skip(j)));
    } else {
        assert(s.skip(0) =~= s);
        assert(s.take(0) + leading_word(s) =~= leading_word(s));
    }
}

/// The name under which a process is shown (see [`process_name_text`]).
pub fn display_process_name(raw: &str) -> (r: String)
    ensures
        r@ == process_name_text(raw@),
{
    let chars = to_chars(raw);
    let t = trim_chars(chars.as_slice());
    if t.len() == 0 {
        return String::new();
    }
    let mut j: usize = 0;
    while j < t.len() && !is_whitespace_char(t[j])
        invariant
            j <= t.len(),
            forall|k: int| 0 <= k < j ==> !is_whitespace(#[trigger] t@[k]),
        decreases t.len() - j,
    {
        j = j + 1;
    }
    proof {
        lemma_leading_word_prefix(t@, j as int);
        if j < t.len() {
            lemma_leading_word_step(t@, j as int);
        } else {
            assert(t@.skip(j as int).len() == 0);
        }
        assert(t@.take(j as int) + Seq::<char>::empty() =~= t@.take(j as int));
    }
    let exe = copy_range(t.as_slice(), 0, j);
    assert(exe@ =~= t@.take(j as int));
    assert(exe@ == leading_word(trim(raw@)));
    let slash: Vec<char> = vec!['/'];
    assert(slash@ =~= seq!['/']);
    if !contains_exec(exe.as_slice(), slash.as_slice()) {
        return string_from_chars(exe.as_slice());
    }
    let parts = split_chars(exe.as_slice(), '/');
    let ghost ps = split_on(exe@, '/');
    let mut k: usize = parts.len();
    assert(ps.take(k as int) =~= ps);
    while k > 0
        invariant
            k <= parts.len(),
            views(parts@) == ps,
            ps == split_on(exe@, '/'),
            exe@ == leading_word(trim(raw@)),
            trim(raw@).len() > 0,
            contains_seq(exe@, seq!['/']),
            last_nonempty(ps) == last_nonempty(ps.take(k as int)),
        decreases k,
    {
        assert(views(parts@)[k - 1] == parts@[k - 1]@);
        assert(ps.take(k as int).last() == ps[k - 1]);
        if parts[k - 1].len() > 0 {
            return string_from_chars(parts[k - 1].as_slice());
        }
        assert(ps.take(k as int).drop_last() =~= ps.take(k - 1));
        k = k - 1;
    }
    string_from_chars(exe.as_slice())
}

/// The symbol in front of the process-usage line.
pub open spec fn usage_symbol() -> Seq<char> {
    "⚠"@
}

/// The text in front of the usage figure: the symbol, the process name and the metric, each
/// followed by a space.
pub open spec fn usage_prefix_text(process_name: Seq<char>, metric: Metric) -> Seq<char> {
    usage_symbol() + " "@ + process_name + " "@ + (match metric {
        Metric::Cpu => "CPU"@,
        Metric::Ram => "RAM"@,
    }) + " "@
}

/// Builds the text in front of the usage figure (see [`usage_prefix_text`]).
pub fn usage_prefix(process_name: &str, metric: Metric) -> (r: String)
    ensures
        r@ == usage_prefix_text(process_name@, metric),
{
    let mut s = String::from_str("⚠");
    s.append(" ");
    s.append(process_name);
    s.append(" ");
    s.append(metric.label());
    s.append(" ");
    s
}

/// What a finished `ps` run gives: its standard output, or why it failed (see
/// [`failure_reason_text`](crate::report::failure_reason_text)); `status` is the exit status as
/// std displays it.
pub fn ps_output(success: bool, stdout: &str, stderr: &str, status: &str) -> (r: Result<
    String,
    String,
>)
    ensures
        match r {
            Ok(out) => success && out@ == stdout@,
            Err(e) => !success && e@ == crate::report::failure_reason_text(
                "ps"@,
                stdout@,
                stderr@,
                status@,
            ),
        },
{
    if !success {
        return Err(crate::report::failure_reason("ps", stdout, stderr, status));
    }
    Ok(String::from_str(stdout))
}

/// At most one fetch runs at a time, and fetches are at least [`REFRESH_INTERVAL_SECS`] seconds
/// apart.
pub proof fn law_usage_fetch_schedule<L>(
    st: ProcessUsageState<L>,
    polled: Option<Poll<Result<Option<L>, String>>>,
    since_last_fetch_nanos: Option<u128>,
)
    ensures
        st.in_flight && (polled is None || polled is Some && polled->0 is Empty) ==> !usage_updated(
            st,
            polled,
            since_last_fetch_nanos,
        ).1,
        usage_updated(st, polled, since_last_fetch_nanos).1 ==> usage_updated(
            st,
            polled,
            since_last_fetch_nanos,
        ).0.in_flight && match since_last_fetch_nanos {
            Some(elapsed) => elapsed >= REFRESH_INTERVAL_SECS * 1_000_000_000,
            None => true,
        },
{
}

/// Whatever line data an answer carries replaces the line, and the answer ends the run: a run
/// that found nothing to report (`None`) clears the line shown before.
pub proof fn law_answer_replaces_line<L>(
    st: ProcessUsageState<L>,
    sample: Option<L>,
    since_last_fetch_nanos: Option<u128>,
)
    ensures
        usage_updated(st, Some(Poll::Received(Ok(sample))), since_last_fetch_nanos).0.line
            == sample,
{
}

/// A failed fetch never leaves stale data on the line.
pub proof fn law_failure_clears_line<L>(
    st: ProcessUsageState<L>,
    err: String,
    since_last_fetch_nanos: Option<u128>,
)
    ensures
        usage_updated(st, Some(Poll::Received(Err(err))), since_last_fetch_nanos).0.line is None,
        usage_updated(st, Some(Poll::Disconnected), since_last_fetch_nanos).0.line is None,
{
}

/// The fields of one line of `ps -axo args=,pcpu=,pmem=`: the process name (from the words
/// before the last two, joined by single spaces, see [`process_name_text`]), then the CPU and
/// the RAM figures as written (the last two words). None when the line has fewer than three
/// words or the name is empty.
pub open spec fn ps_line_fields_text(line: Seq<char>) -> Option<(Seq<char>, Seq<char>, Seq<char>)> {
    let t = words(line);
    if t.len() < 3 {
        None
    } else {
        let name = process_name_text(join(t.take(t.len() - 2), seq![' ']));
        if name.len() == 0 {
            None
        } else {
            Some((name, t[t.len() - 2], t[t.len() - 1]))
        }
    }
}

/// Splits one `ps` line into the process name and the CPU and RAM figures as written (see
/// [`ps_line_fields_text`]); the caller reads the figures as numbers.
pub fn ps_line_fields(line: &str) -> (r: Option<(String, String, String)>)
    ensures
        match r {
            Some((name, cpu, ram)) => ps_line_fields_text(line@) == Some((name@, cpu@, ram@)),
            None => ps_line_fields_text(line@) is None,
        },
{
    let chars = to_chars(line);
    let tokens = words_chars(chars.as_slice());
    let ghost t = words(line@);
    let n = tokens.len();
    if n < 3 {
        return None;
    }
    let joined = join_chars(&tokens, n - 2, ' ');
    proof {
        assert(views(tokens@).take(n - 2) == t.take(t.len() - 2));
    }
    let joined_text = string_from_chars(joined.as_slice());
    let name = display_process_name(joined_text.as_str());
    if name.as_str().unicode_len() == 0 {
        return None;
    }
    assert(t[n - 2] == tokens@[n - 2]@);
    assert(t[n - 1] == tokens@[n - 1]@);
    let cpu = string_from_chars(tokens[n - 2].as_slice());
    let ram = string_from_chars(tokens[n - 1].as_slice());
    Some((name, cpu, ram))
}

} // verus!
