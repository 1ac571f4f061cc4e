//! Character-level text helpers shared by the parsers and formatters of this crate.
//!
//! Every helper works on the `char` sequence of a string (its view) and is specified by a spec
//! function over `Seq<char>` that says what std's corresponding `str` method documents.
use vstd::prelude::*;

verus! {

broadcast use vstd::string::group_string_axioms;

/// Unicode `White_Space`, the property behind std's `char::is_whitespace`, `str::trim` and
/// `str::split_whitespace`.
pub open spec fn is_whitespace(c: char) -> bool {
    ||| c == '\t'
    ||| c == '\n'
    ||| c == '\u{0B}'
    ||| c == '\u{0C}'
    ||| c == '\r'
    ||| c == ' '
    ||| c == '\u{85}'
    ||| c == '\u{A0}'
    ||| c == '\u{1680}'
    ||| ('\u{2000}' <= c && c <= '\u{200A}')
    ||| c == '\u{2028}'
    ||| c == '\u{2029}'
    ||| c == '\u{202F}'
    ||| c == '\u{205F}'
    ||| c == '\u{3000}'
}

pub open spec fn is_ascii_digit(c: char) -> bool {
    '0' <= c && c <= '9'
}

/// std's `char::to_ascii_lowercase`: `A`..=`Z` become `a`..=`z`, every other char stays.
pub open spec fn ascii_lower(c: char) -> char {
    if 'A' <= c && c <= 'Z' {
        ((c as u32) + 32) as char
    } else {
        c
    }
}

/// std's `str::to_ascii_lowercase`.
pub open spec fn to_ascii_lowercase(s: Seq<char>) -> Seq<char> {
    s.map_values(|c: char| ascii_lower(c))
}

/// The whitespace-separated words of `s`, in order, as std's `str::split_whitespace` yields them:
/// maximal runs of non-whitespace characters.
pub open spec fn words(s: Seq<char>) -> Seq<Seq<char>>
    decreases s.len(),
{
    if s.len() == 0 {
        Seq::empty()
    } else {
        let p = words(s.drop_last());
        let c = s.last();
        if is_whitespace(c) {
            p
        } else if s.len() >= 2 && !is_whitespace(s[s.len() - 2]) {
            p.update(p.len() - 1, p.last().push(c))
        } else {
            p.push(seq![c])
        }
    }
}

/// The pieces of `parts` joined with `sep` between each two of them (std's `join`).
pub open spec fn join(parts: Seq<Seq<char>>, sep: Seq<char>) -> Seq<char>
    decreases parts.len(),
{
    if parts.len() == 0 {
        Seq::empty()
    } else if parts.len() == 1 {
        parts[0]
    } else {
        join(parts.drop_last(), sep) + sep + parts.last()
    }
}

/// `s.split_whitespace().collect::<Vec<_>>().join(" ")`: the words of `s` on one line, one space
/// between each two.
pub open spec fn single_line(s: Seq<char>) -> Seq<char> {
    join(words(s), seq![' '])
}

/// std's `char::is_whitespace`.
pub fn is_whitespace_char(c: char) -> (r: bool)
    ensures
        r == is_whitespace(c),
{
    c == '\t' || c == '\n' || c == '\u{0B}' || c == '\u{0C}' || c == '\r' || c == ' ' || c
        == '\u{85}' || c == '\u{A0}' || c == '\u{1680}' || ('\u{2000}' <= c && c <= '\u{200A}')
        || c == '\u{2028}' || c == '\u{2029}' || c == '\u{202F}' || c == '\u{205F}' || c
        == '\u{3000}'
}

/// std's `char::to_ascii_lowercase`.
pub fn lower(c: char) -> (r: char)
    ensures
        r == ascii_lower(c),
{
    if 'A' <= c && c <= 'Z' {
        ((c as u8) + 32) as char
    } else {
        c
    }
}

/// Appends one character to a `String`: std's `String::push`, which documents that it appends
/// the given char to the end of the string.
#[verifier::external_body]
pub(crate) fn push_char(s: &mut String, c: char)
    ensures
        final(s)@ == old(s)@.push(c),
{
    s.push(c);
}

/// The characters of `s`, in order.
pub fn to_chars(s: &str) -> (v: Vec<char>)
    ensures
        v@ == s@,
{
    let mut v: Vec<char> = Vec::new();
    for c in it: s.chars()
        invariant
            it.seq() == s@,
            v@ == it.seq().take(it.index() as int),
    {
        v.push(c);
    }
    v
}

/// A `String` holding the characters of `v`, in order.
pub fn string_from_chars(v: &[char]) -> (s: String)
    ensures
        s@ == v@,
{
    let mut s = String::new();
    let mut i: usize = 0;
    while i < v.len()
        invariant
            i <= v.len(),
            s@ == v@.take(i as int),
        decreases v.len() - i,
    {
        push_char(&mut s, v[i]);
        i = i + 1;
        assert(s@ =~= v@.take(i as int));
    }
    assert(v@.take(v.len() as int) =~= v@);
    s
}

/// std's `str::to_ascii_lowercase`, on a char sequence.
pub fn lowercase_chars(v: &[char]) -> (r: Vec<char>)
    ensures
        r@ == to_ascii_lowercase(v@),
{
    let mut r: Vec<char> = Vec::new();
    let mut i: usize = 0;
    while i < v.len()
        invariant
            i <= v.len(),
            r@ == to_ascii_lowercase(v@.take(i as int)),
        decreases v.len() - i,
    {
        r.push(lower(v[i]));
        i = i + 1;
        assert(r@ =~= to_ascii_lowercase(v@.take(i as int)));
    }
    assert(v@.take(v.len() as int) =~= v@);
    r
}

/// Whether two char sequences are equal (std's `==` on `str`).
pub fn chars_eq(a: &[char], b: &[char]) -> (r: bool)
    ensures
        r == (a@ == b@),
{
    if a.len() != b.len() {
        return false;
    }
    let mut i: usize = 0;
    while i < a.len()
        invariant
            i <= a.len(),
            a.len() == b.len(),
            a@.take(i as int) == b@.take(i as int),
        decreases a.len() - i,
    {
        if a[i] != b[i] {
            assert(a@[i as int] != b@[i as int]);
            return false;
        }
        assert(a@.take(i + 1) =~= a@.take(i as int).push(a@[i as int]));
        assert(b@.take(i + 1) =~= b@.take(i as int).push(b@[i as int]));
        i = i + 1;
    }
    assert(a@.take(a.len() as int) =~= a@);
    assert(b@.take(b.len() as int) =~= b@);
    true
}

/// A non-empty sequence that ends in a non-whitespace char has at least one word.
proof fn lemma_words_last_nonempty(s: Seq<char>)
    requires
        s.len() > 0,
        !is_whitespace(s.last()),
    ensures
        words(s).len() > 0,
    decreases s.len(),
{
    if s.len() >= 2 && !is_whitespace(s[s.len() - 2]) {
        lemma_words_last_nonempty(s.drop_last());
    }
}

/// Every word is non-empty.
proof fn lemma_words_nonempty(s: Seq<char>)
    ensures
        forall|k: int| 0 <= k < words(s).len() ==> #[trigger] words(s)[k].len() > 0,
    decreases s.len(),
{
    if s.len() > 0 {
        lemma_words_nonempty(s.drop_last());
        if !is_whitespace(s.last()) && s.len() >= 2 && !is_whitespace(s[s.len() - 2]) {
            lemma_words_last_nonempty(s.drop_last());
        }
    }
}

proof fn lemma_join_push(p: Seq<Seq<char>>, w: Seq<char>, sep: Seq<char>)
    ensures
        join(p.push(w), sep) == if p.len() == 0 {
            w
        } else {
            join(p, sep) + sep + w
        },
{
    assert(p.push(w).drop_last() =~= p);
}

proof fn lemma_join_extend_last(p: Seq<Seq<char>>, c: char, sep: Seq<char>)
    requires
        p.len() > 0,
    ensures
        join(p.update(p.len() - 1, p.last().push(c)), sep) == join(p, sep).push(c),
{
    let q = p.update(p.len() - 1, p.last().push(c));
    assert(q.drop_last() =~= p.drop_last());
    if p.len() == 1 {
    } else {
        assert((join(p.drop_last(), sep) + sep + p.last()).push(c) =~= join(p.drop_last(), sep)
            + sep + p.last().push(c));
    }
}

proof fn lemma_join_nonempty(p: Seq<Seq<char>>, sep: Seq<char>)
    requires
        p.len() > 0,
        p.last().len() > 0,
    ensures
        join(p, sep).len() > 0,
{
}

/// `s.split_whitespace().collect::<Vec<_>>().join(" ")`, as chars.
pub fn single_line_chars(s: &[char]) -> (r: Vec<char>)
    ensures
        r@ == single_line(s@),
{
    let mut out: Vec<char> = Vec::new();
    let mut prev_ws = true;
    let mut i: usize = 0;
    while i < s.len()
        invariant
            i <= s.len(),
            out@ == single_line(s@.take(i as int)),
            prev_ws == (i == 0 || is_whitespace(s@[i - 1])),
            (out@.len() == 0) == (words(s@.take(i as int)).len() == 0),
        decreases s.len() - i,
    {
        let c = s[i];
        let ghost t = s@.take(i as int);
        let ghost t1 = s@.take(i + 1);
        proof {
            assert(t1.drop_last() =~= t);
            assert(t1.last() == c);
            lemma_words_nonempty(t);
            if i >= 1 {
                assert(t1[t1.len() - 2] == s@[i - 1]);
            }
        }
        let ws = is_whitespace_char(c);
        if ws {
        } else if prev_ws {
            proof {
                lemma_join_push(words(t), seq![c], seq![' ']);
            }
            if out.len() > 0 {
                out.push(' ');
            }
            out.push(c);
            proof {
                assert(words(t1) == words(t).push(seq![c]));
                if words(t).len() == 0 {
                    assert(out@ =~= seq![c]);
                } else {
                    assert(out@ =~= single_line(t) + seq![' '] + seq![c]);
                }
            }
        } else {
            proof {
                lemma_words_last_nonempty(t);
                lemma_join_extend_last(words(t), c, seq![' ']);
            }
            out.push(c);
        }
        proof {
            lemma_words_nonempty(t1);
            if words(t1).len() > 0 {
                lemma_join_nonempty(words(t1), seq![' ']);
            }
        }
        i = i + 1;
        prev_ws = ws;
    }
    assert(s@.take(s.len() as int) =~= s@);
    out
}


/// std's `str::trim_start`: the leading whitespace removed.
pub open spec fn trim_start(s: Seq<char>) -> Seq<char>
    decreases s.len(),
{
    if s.len() > 0 && is_whitespace(s[0]) {
        trim_start(s.drop_first())
    } else {
        s
    }
}

/// std's `str::trim_end`: the trailing whitespace removed.
pub open spec fn trim_end(s: Seq<char>) -> Seq<char>
    decreases s.len(),
{
    if s.len() > 0 && is_whitespace(s.last()) {
        trim_end(s.drop_last())
    } else {
        s
    }
}

/// std's `str::trim`: leading and trailing whitespace removed.
pub open spec fn trim(s: Seq<char>) -> Seq<char> {
    trim_end(trim_start(s))
}

/// Whether `pat` occurs in `s` at position `i`.
pub open spec fn occurs_at(s: Seq<char>, i: int, pat: Seq<char>) -> bool {
    0 <= i && i + pat.len() <= s.len() && s.subrange(i, i + pat.len()) == pat
}

/// Whether `pat` occurs anywhere in `s` (std's `str::contains` with a `&str` pattern).
pub open spec fn contains_seq(s: Seq<char>, pat: Seq<char>) -> bool {
    exists|i: int| occurs_at(s, i, pat)
}

/// std's `str::starts_with`.
pub open spec fn starts_with(s: Seq<char>, pat: Seq<char>) -> bool {
    occurs_at(s, 0, pat)
}

/// std's `str::ends_with`.
pub open spec fn ends_with(s: Seq<char>, pat: Seq<char>) -> bool {
    occurs_at(s, s.len() - pat.len(), pat)
}

/// The last position below `k` at which `pat` occurs in `s`.
pub open spec fn last_occurrence_before(s: Seq<char>, pat: Seq<char>, k: int) -> Option<int>
    decreases k,
{
    if k <= 0 {
        None
    } else if occurs_at(s, k - 1, pat) {
        Some(k - 1)
    } else {
        last_occurrence_before(s, pat, k - 1)
    }
}

/// The last position at which `pat` occurs in `s`, as std's `str::rsplit_once` finds it.
pub open spec fn last_occurrence(s: Seq<char>, pat: Seq<char>) -> Option<int> {
    last_occurrence_before(s, pat, s.len() + 1int)
}

/// std's `str::split` on one char: the pieces between the occurrences of `sep`, in order, the
/// empty ones included (so there is always at least one).
pub open spec fn split_on(s: Seq<char>, sep: char) -> Seq<Seq<char>>
    decreases s.len(),
{
    if s.len() == 0 {
        seq![Seq::empty()]
    } else {
        let p = split_on(s.drop_last(), sep);
        if s.last() == sep {
            p.push(Seq::empty())
        } else {
            p.update(p.len() - 1, p.last().push(s.last()))
        }
    }
}

/// A line without the `'\r'` that precedes its `'\n'`.
pub open spec fn strip_cr(line: Seq<char>) -> Seq<char> {
    if line.len() > 0 && line.last() == '\r' {
        line.drop_last()
    } else {
        line
    }
}

/// std's `str::lines`: the text split at `'\n'`, each line that a `'\n'` ends stripped of one
/// `'\r'` before it, and no empty line after a final `'\n'`.
pub open spec fn lines(s: Seq<char>) -> Seq<Seq<char>> {
    let p = split_on(s, '\n');
    let body = p.drop_last().map_values(|l: Seq<char>| strip_cr(l));
    if p.last().len() == 0 {
        body
    } else {
        body.push(p.last())
    }
}

/// The views of a sequence of char vectors.
pub open spec fn views(v: Seq<Vec<char>>) -> Seq<Seq<char>> {
    v.map_values(|x: Vec<char>| x@)
}

/// The number that a sequence of ASCII digits spells in base ten.
pub open spec fn decimal_value(d: Seq<char>) -> nat
    decreases d.len(),
{
    if d.len() == 0 {
        0
    } else {
        10 * decimal_value(d.drop_last()) + ((d.last() as u32) - ('0' as u32)) as nat
    }
}

/// The digits of an unsigned number as std's `str::parse` reads them: without one leading `'+'`
/// when something follows it.
pub open spec fn unsigned_digits(s: Seq<char>) -> Seq<char> {
    if s.len() > 1 && s[0] == '+' {
        s.drop_first()
    } else {
        s
    }
}

/// Whether every char of `d` is an ASCII digit.
pub open spec fn all_digits(d: Seq<char>) -> bool {
    forall|i: int| 0 <= i < d.len() ==> is_ascii_digit(#[trigger] d[i])
}

/// std's `str::parse` for an unsigned integer type whose largest value is `max`: an optional
/// `'+'`, then one or more ASCII digits spelling a number no larger than `max`.
pub open spec fn parse_unsigned(s: Seq<char>, max: nat) -> Option<nat> {
    let d = unsigned_digits(s);
    if d.len() > 0 && all_digits(d) && decimal_value(d) <= max {
        Some(decimal_value(d))
    } else {
        None
    }
}

proof fn lemma_trim_start_skip(s: Seq<char>, i: int)
    requires
        0 <= i < s.len(),
        is_whitespace(s[i]),
    ensures
        trim_start(s.subrange(i, s.len() as int)) == trim_start(s.subrange(i + 1, s.len() as int)),
{
    assert(s.subrange(i, s.len() as int).drop_first() =~= s.subrange(i + 1, s.len() as int));
}

proof fn lemma_trim_end_skip(s: Seq<char>, j: int)
    requires
        0 < j <= s.len(),
        is_whitespace(s[j - 1]),
    ensures
        trim_end(s.subrange(0, j)) == trim_end(s.subrange(0, j - 1)),
{
    assert(s.subrange(0, j).drop_last() =~= s.subrange(0, j - 1));
}

/// The chars of `s` from `start` up to `end`.
pub fn copy_range(s: &[char], start: usize, end: usize) -> (r: Vec<char>)
    requires
        start <= end <= s.len(),
    ensures
        r@ == s@.subrange(start as int, end as int),
{
    let mut r: Vec<char> = Vec::new();
    let mut i = start;
    while i < end
        invariant
            start <= i <= end <= s.len(),
            r@ == s@.subrange(start as int, i as int),
        decreases end - i,
    {
        r.push(s[i]);
        i = i + 1;
        assert(r@ =~= s@.subrange(start as int, i as int));
    }
    r
}

/// std's `str::trim`, on chars.
pub fn trim_chars(s: &[char]) -> (r: Vec<char>)
    ensures
        r@ == trim(s@),
{
    let mut a: usize = 0;
    assert(s@.subrange(0, s@.len() as int) =~= s@);
    while a < s.len() && is_whitespace_char(s[a])
        invariant
            a <= s.len(),
            trim_start(s@) == trim_start(s@.subrange(a as int, s@.len() as int)),
        decreases s.len() - a,
    {
        proof {
            lemma_trim_start_skip(s@, a as int);
        }
        a = a + 1;
    }
    let ghost t = s@.subrange(a as int, s@.len() as int);
    assert(trim_start(s@) == t);
    let mut b: usize = s.len();
    assert(t.subrange(0, t.len() as int) =~= t);
    while b > a && is_whitespace_char(s[b - 1])
        invariant
            a <= b <= s.len(),
            t == s@.subrange(a as int, s@.len() as int),
            trim_end(t) == trim_end(t.subrange(0, b - a)),
        decreases b,
    {
        proof {
            lemma_trim_end_skip(t, b - a);
        }
        b = b - 1;
    }
    assert(t.subrange(0, b - a) =~= s@.subrange(a as int, b as int));
    copy_range(s, a, b)
}

/// Whether `pat` occurs in `s` at position `i`.
pub fn occurs_at_exec(s: &[char], i: usize, pat: &[char]) -> (r: bool)
    ensures
        r == occurs_at(s@, i as int, pat@),
{
    if i > s.len() || pat.len() > s.len() - i {
        return false;
    }
    let mut k: usize = 0;
    while k < pat.len()
        invariant
            k <= pat.len(),
            i + pat.len() <= s.len(),
            s@.subrange(i as int, i + k) == pat@.take(k as int),
        decreases pat.len() - k,
    {
        if s[i + k] != pat[k] {
            assert(s@.subrange(i as int, i + pat.len())[k as int] != pat@[k as int]);
            return false;
        }
        k = k + 1;
        assert(s@.subrange(i as int, i + k) =~= pat@.take(k as int));
    }
    assert(pat@.take(pat.len() as int) =~= pat@);
    true
}

/// std's `str::contains` with a `&str` pattern.
pub fn contains_exec(s: &[char], pat: &[char]) -> (r: bool)
    ensures
        r == contains_seq(s@, pat@),
{
    if pat.len() > s.len() {
        return false;
    }
    if pat.len() == 0 {
        assert(s@.subrange(0, 0) =~= pat@);
        assert(occurs_at(s@, 0, pat@));
        return true;
    }
    let mut i: usize = 0;
    while i <= s.len() - pat.len()
        invariant
            0 < pat.len() <= s.len(),
            i <= s.len() - pat.len() + 1,
            forall|j: int| 0 <= j < i ==> !occurs_at(s@, j, pat@),
        decreases s.len() - pat.len() + 1 - i,
    {
        if occurs_at_exec(s, i, pat) {
            return true;
        }
        i = i + 1;
    }
    false
}

/// std's `str::ends_with`.
pub fn ends_with_exec(s: &[char], pat: &[char]) -> (r: bool)
    ensures
        r == ends_with(s@, pat@),
{
    if pat.len() > s.len() {
        return false;
    }
    occurs_at_exec(s, s.len() - pat.len(), pat)
}

/// std's `str::starts_with`.
pub fn starts_with_exec(s: &[char], pat: &[char]) -> (r: bool)
    ensures
        r == starts_with(s@, pat@),
{
    occurs_at_exec(s, 0, pat)
}

proof fn lemma_last_occurrence_none(s: Seq<char>, pat: Seq<char>, k: int)
    requires
        last_occurrence_before(s, pat, k) is None,
    ensures
        forall|j: int| j < k ==> !occurs_at(s, j, pat),
    decreases k,
{
    if k > 0 {
        lemma_last_occurrence_none(s, pat, k - 1);
    }
}

/// The last position at which `pat` occurs in `s`.
pub fn last_occurrence_exec(s: &[char], pat: &[char]) -> (r: Option<usize>)
    ensures
        match r {
            Some(i) => last_occurrence(s@, pat@) == Some(i as int) && occurs_at(
                s@,
                i as int,
                pat@,
            ),
            None => last_occurrence(s@, pat@) is None,
        },
{
    if pat.len() == 0 {
        assert(s@.subrange(s@.len() as int, s@.len() as int) =~= pat@);
        return Some(s.len());
    }
    let mut k: usize = s.len();
    assert(!occurs_at(s@, s@.len() as int, pat@));
    while k > 0
        invariant
            k <= s.len() + 1,
            last_occurrence(s@, pat@) == last_occurrence_before(s@, pat@, k as int),
        decreases k,
    {
        if occurs_at_exec(s, k - 1, pat) {
            return Some(k - 1);
        }
        k = k - 1;
    }
    None
}

proof fn lemma_split_on_nonempty(s: Seq<char>, sep: char)
    ensures
        split_on(s, sep).len() >= 1,
    decreases s.len(),
{
    if s.len() > 0 {
        lemma_split_on_nonempty(s.drop_last(), sep);
    }
}

/// std's `str::split` on one char, as char vectors.
pub fn split_chars(s: &[char], sep: char) -> (r: Vec<Vec<char>>)
    ensures
        views(r@) == split_on(s@, sep),
{
    let mut parts: Vec<Vec<char>> = Vec::new();
    let mut cur: Vec<char> = Vec::new();
    let mut i: usize = 0;
    assert(views(parts@).push(cur@) =~= split_on(s@.take(0), sep));
    while i < s.len()
        invariant
            i <= s.len(),
            views(parts@).push(cur@) == split_on(s@.take(i as int), sep),
        decreases s.len() - i,
    {
        let c = s[i];
        let ghost t = s@.take(i as int);
        let ghost t1 = s@.take(i + 1);
        proof {
            assert(t1.drop_last() =~= t);
            assert(t1.last() == c);
            lemma_split_on_nonempty(t, sep);
        }
        if c == sep {
            let done = cur;
            parts.push(done);
            cur = Vec::new();
            assert(views(parts@).push(cur@) =~= split_on(t, sep).push(Seq::empty()));
        } else {
            let ghost before = views(parts@).push(cur@);
            cur.push(c);
            assert(views(parts@).push(cur@) =~= before.update(before.len() - 1, before.last().push(c)));
        }
        i = i + 1;
    }
    parts.push(cur);
    assert(s@.take(s.len() as int) =~= s@);
    assert(views(parts@) =~= split_on(s@, sep));
    parts
}

/// The line without the `'\r'` before its `'\n'`.
fn strip_cr_exec(line: Vec<char>) -> (r: Vec<char>)
    ensures
        r@ == strip_cr(line@),
{
    let mut line = line;
    if line.len() > 0 && line[line.len() - 1] == '\r' {
        line.pop();
    }
    line
}

/// std's `str::lines`, as char vectors.
pub fn lines_chars(s: &[char]) -> (r: Vec<Vec<char>>)
    ensures
        views(r@) == lines(s@),
{
    let parts = split_chars(s, '\n');
    proof {
        lemma_split_on_nonempty(s@, '\n');
    }
    let n = parts.len();
    let mut r: Vec<Vec<char>> = Vec::new();
    let mut i: usize = 0;
    let ghost p = split_on(s@, '\n');
    while i + 1 < n
        invariant
            n == parts.len(),
            n >= 1,
            i + 1 <= n,
            views(parts@) == p,
            views(r@) == p.take(i as int).map_values(|l: Seq<char>| strip_cr(l)),
        decreases n - i,
    {
        let line = strip_cr_exec(parts[i].clone());
        assert(views(parts@)[i as int] == parts@[i as int]@);
        assert(p.take(i + 1) =~= p.take(i as int).push(p[i as int]));
        let ghost before = views(r@);
        r.push(line);
        assert(views(r@) =~= before.push(line@));
        i = i + 1;
        assert(views(r@) =~= p.take(i as int).map_values(|l: Seq<char>| strip_cr(l)));
    }
    assert(p.take(i as int) =~= p.drop_last());
    assert(views(parts@)[n - 1] == parts@[n - 1]@);
    if parts[n - 1].len() > 0 {
        r.push(parts[n - 1].clone());
        assert(views(r@) =~= lines(s@));
    }
    r
}

/// std's `str::parse` for an unsigned integer type whose largest value is `max`.
pub fn parse_unsigned_exec(s: &[char], max: u32) -> (r: Option<u32>)
    ensures
        match r {
            Some(v) => parse_unsigned(s@, max as nat) == Some(v as nat),
            None => parse_unsigned(s@, max as nat) is None,
        },
{
    let start: usize = if s.len() > 1 && s[0] == '+' {
        1
    } else {
        0
    };
    let ghost d = s@.subrange(start as int, s@.len() as int);
    assert(d == unsigned_digits(s@));
    if start == s.len() {
        return None;
    }
    let mut acc: u64 = 0;
    let mut i: usize = start;
    while i < s.len()
        invariant
            start <= i <= s.len(),
            d == s@.subrange(start as int, s@.len() as int),
            d == unsigned_digits(s@),
            d.len() > 0,
            acc <= max,
            acc == decimal_value(d.take(i - start)),
            forall|j: int| 0 <= j < i - start ==> is_ascii_digit(#[trigger] d[j]),
        decreases s.len() - i,
    {
        let c = s[i];
        assert(d[i - start] == c);
        if c < '0' || c > '9' {
            assert(!is_ascii_digit(d[i - start]));
            return None;
        }
        let digit = (c as u32) - ('0' as u32);
        let next = acc * 10 + digit as u64;
        proof {
            assert(d.take(i - start + 1).drop_last() =~= d.take(i - start));
            assert(d.take(i - start + 1).last() == c);
        }
        if next > max as u64 {
            proof {
                if all_digits(d) {
                    lemma_decimal_value_grows(d, i - start + 1);
                }
            }
            return None;
        }
        acc = next;
        i = i + 1;
    }
    assert(d.take(d.len() as int) =~= d);
    Some(acc as u32)
}

/// A longer run of digits spells a number at least as large as its prefix.
proof fn lemma_decimal_value_grows(d: Seq<char>, k: int)
    requires
        0 <= k <= d.len(),
        all_digits(d),
    ensures
        decimal_value(d) >= decimal_value(d.take(k)),
    decreases d.len() - k,
{
    if k < d.len() {
        lemma_decimal_value_grows(d, k + 1);
        assert(d.take(k + 1).drop_last() =~= d.take(k));
    } else {
        assert(d.take(k) =~= d);
    }
}

/// Whether `c` may stand on a single line of text: it is no whitespace, or it is a plain space.
pub open spec fn single_line_char(c: char) -> bool {
    !is_whitespace(c) || c == ' '
}

/// No word holds a whitespace char.
pub proof fn lemma_words_have_no_whitespace(s: Seq<char>)
    ensures
        forall|k: int, i: int|
            0 <= k < words(s).len() && 0 <= i < words(s)[k].len() ==> !is_whitespace(
                #[trigger] words(s)[k][i],
            ),
    decreases s.len(),
{
    if s.len() > 0 {
        lemma_words_have_no_whitespace(s.drop_last());
        let p = words(s.drop_last());
        if !is_whitespace(s.last()) && s.len() >= 2 && !is_whitespace(s[s.len() - 2]) {
            lemma_words_last_nonempty(s.drop_last());
            assert forall|k: int, i: int|
                0 <= k < words(s).len() && 0 <= i < words(s)[k].len() implies !is_whitespace(
                #[trigger] words(s)[k][i],
            ) by {
                if k < p.len() - 1 {
                    assert(words(s)[k] == p[k]);
                } else {
                    assert(words(s)[k] == p.last().push(s.last()));
                    if i < p.last().len() {
                        assert(words(s)[k][i] == p[p.len() - 1][i]);
                    }
                }
            }
        } else if !is_whitespace(s.last()) {
            assert forall|k: int, i: int|
                0 <= k < words(s).len() && 0 <= i < words(s)[k].len() implies !is_whitespace(
                #[trigger] words(s)[k][i],
            ) by {
                if k < p.len() {
                    assert(words(s)[k] == p[k]);
                }
            }
        }
    }
}

/// Joining pieces of single-line chars with spaces gives single-line chars.
proof fn lemma_join_single_line(p: Seq<Seq<char>>)
    requires
        forall|k: int, i: int|
            0 <= k < p.len() && 0 <= i < p[k].len() ==> single_line_char(#[trigger] p[k][i]),
    ensures
        forall|i: int|
            0 <= i < join(p, seq![' ']).len() ==> single_line_char(#[trigger] join(p, seq![' '])[i]),
    decreases p.len(),
{
    if p.len() > 1 {
        let q = p.drop_last();
        assert forall|k: int, i: int| 0 <= k < q.len() && 0 <= i < q[k].len() implies single_line_char(
            #[trigger] q[k][i],
        ) by {
            assert(q[k] == p[k]);
        }
        lemma_join_single_line(q);
        let j = join(q, seq![' ']);
        let whole = j + seq![' '] + p.last();
        assert forall|i: int| 0 <= i < whole.len() implies single_line_char(#[trigger] whole[i]) by {
            if i < j.len() {
                assert(whole[i] == j[i]);
            } else if i == j.len() {
                assert(whole[i] == ' ');
            } else {
                assert(whole[i] == p[p.len() - 1][i - j.len() - 1]);
            }
        }
    } else if p.len() == 1 {
        assert forall|i: int| 0 <= i < join(p, seq![' ']).len() implies single_line_char(
            #[trigger] join(p, seq![' '])[i],
        ) by {
            assert(join(p, seq![' '])[i] == p[0][i]);
        }
    }
}

/// The words of a text joined by spaces form a single line: every char is a plain space or no
/// whitespace at all.
pub proof fn lemma_single_line_chars(s: Seq<char>)
    ensures
        forall|i: int|
            0 <= i < single_line(s).len() ==> single_line_char(#[trigger] single_line(s)[i]),
{
    lemma_words_have_no_whitespace(s);
    let p = words(s);
    assert forall|k: int, i: int| 0 <= k < p.len() && 0 <= i < p[k].len() implies single_line_char(
        #[trigger] p[k][i],
    ) by {
        assert(!is_whitespace(p[k][i]));
    }
    lemma_join_single_line(p);
}

/// The first position at or after `k` at which `pat` occurs in `s`.
pub open spec fn first_occurrence_from(s: Seq<char>, pat: Seq<char>, k: int) -> Option<int>
    decreases s.len() + 1 - k,
{
    if k < 0 || k > s.len() {
        None
    } else if occurs_at(s, k, pat) {
        Some(k)
    } else {
        first_occurrence_from(s, pat, k + 1)
    }
}

/// The first position at which `pat` occurs in `s`, as std's `str::split_once` finds it.
pub open spec fn first_occurrence(s: Seq<char>, pat: Seq<char>) -> Option<int> {
    first_occurrence_from(s, pat, 0)
}

/// The first position at which `pat` occurs in `s`.
pub fn first_occurrence_exec(s: &[char], pat: &[char]) -> (r: Option<usize>)
    ensures
        match r {
            Some(i) => first_occurrence(s@, pat@) == Some(i as int) && occurs_at(
                s@,
                i as int,
                pat@,
            ),
            None => first_occurrence(s@, pat@) is None,
        },
{
    if pat.len() > s.len() {
        let ghost n = s@.len() as int;
        assert forall|k: int| 0 <= k <= n implies !occurs_at(s@, k, pat@) by {}
        proof {
            lemma_first_occurrence_none(s@, pat@, 0);
        }
        return None;
    }
    if pat.len() == 0 {
        assert(s@.subrange(0, 0) =~= pat@);
        return Some(0);
    }
    let mut k: usize = 0;
    while k <= s.len() - pat.len()
        invariant
            0 < pat.len() <= s.len(),
            k <= s.len() - pat.len() + 1,
            first_occurrence(s@, pat@) == first_occurrence_from(s@, pat@, k as int),
        decreases s.len() - pat.len() + 1 - k,
    {
        if occurs_at_exec(s, k, pat) {
            return Some(k);
        }
        k = k + 1;
    }
    proof {
        lemma_first_occurrence_none(s@, pat@, k as int);
    }
    None
}

/// When `pat` occurs nowhere from `k` on, no occurrence is found from `k`.
proof fn lemma_first_occurrence_none(s: Seq<char>, pat: Seq<char>, k: int)
    requires
        0 <= k,
        forall|j: int| k <= j <= s.len() ==> !occurs_at(s, j, pat),
    ensures
        first_occurrence_from(s, pat, k) is None,
    decreases s.len() + 1 - k,
{
    if k <= s.len() {
        lemma_first_occurrence_none(s, pat, k + 1);
    }
}

/// std's `str::split_whitespace`, as char vectors.
pub fn words_chars(s: &[char]) -> (r: Vec<Vec<char>>)
    ensures
        views(r@) == words(s@),
{
    let mut out: Vec<Vec<char>> = Vec::new();
    let mut prev_ws = true;
    let mut i: usize = 0;
    assert(views(out@) =~= words(s@.take(0)));
    while i < s.len()
        invariant
            i <= s.len(),
            views(out@) == words(s@.take(i as int)),
            prev_ws == (i == 0 || is_whitespace(s@[i - 1])),
        decreases s.len() - i,
    {
        let c = s[i];
        let ghost t = s@.take(i as int);
        let ghost t1 = s@.take(i + 1);
        proof {
            assert(t1.drop_last() =~= t);
            assert(t1.last() == c);
            if i >= 1 {
                assert(t1[t1.len() - 2] == s@[i - 1]);
            }
        }
        let ws = is_whitespace_char(c);
        if ws {
        } else if prev_ws {
            let ghost before = views(out@);
            let mut w: Vec<char> = Vec::new();
            w.push(c);
            out.push(w);
            assert(views(out@) =~= before.push(seq![c]));
        } else {
            proof {
                lemma_words_last_nonempty(t);
            }
            let ghost before = views(out@);
            let n = out.len();
            let mut last = out.pop().unwrap();
            last.push(c);
            out.push(last);
            assert(views(out@) =~= before.update(n - 1, before.last().push(c)));
        }
        i = i + 1;
        prev_ws = ws;
    }
    assert(s@.take(s.len() as int) =~= s@);
    out
}

/// The first `n` pieces joined with `sep` between each two of them (std's `join`).
pub fn join_chars(parts: &Vec<Vec<char>>, n: usize, sep: char) -> (r: Vec<char>)
    requires
        n <= parts@.len(),
    ensures
        r@ == join(views(parts@).take(n as int), seq![sep]),
{
    let mut out: Vec<char> = Vec::new();
    let mut k: usize = 0;
    assert(views(parts@).take(0) =~= Seq::<Seq<char>>::empty());
    while k < n
        invariant
            k <= n <= parts@.len(),
            out@ == join(views(parts@).take(k as int), seq![sep]),
        decreases n - k,
    {
        let ghost p = views(parts@).take(k as int);
        let ghost w = parts@[k as int]@;
        proof {
            lemma_join_push(p, w, seq![sep]);
            assert(views(parts@).take(k + 1) =~= p.push(w));
        }
        if k > 0 {
            out.push(sep);
        }
        let part = &parts[k];
        let ghost base = out@;
        let mut j: usize = 0;
        while j < part.len()
            invariant
                j <= part@.len(),
                out@ == base + part@.take(j as int),
            decreases part.len() - j,
        {
            out.push(part[j]);
            j = j + 1;
            assert(out@ =~= base + part@.take(j as int));
        }
        assert(part@.take(part@.len() as int) =~= part@);
        if k == 0 {
            assert(out@ =~= w);
        } else {
            assert(out@ =~= join(p, seq![sep]) + seq![sep] + w);
        }
        k = k + 1;
    }
    out
}

} // verus!
