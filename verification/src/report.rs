//! Short one-line reports of failures, as the information lines show them.
use vstd::prelude::*;
use vstd::string::StringExecFns;

use crate::text::{
    lemma_single_line_chars, single_line, single_line_char, single_line_chars, string_from_chars,
    to_chars, trim, trim_chars,
};

verus! {

broadcast use vstd::string::group_string_axioms;

/// The longest error text, in chars, that an information line shows whole.
pub const DISPLAY_ERROR_MAX_LEN: usize = 80;

/// `prefix` followed by the error on one line (its words joined by single spaces); an error
/// line longer than [`DISPLAY_ERROR_MAX_LEN`] chars is cut to one char less and ends in `…`.
pub open spec fn display_error_text(prefix: Seq<char>, err: Seq<char>) -> Seq<char> {
    let line = single_line(err);
    if line.len() > DISPLAY_ERROR_MAX_LEN {
        prefix + line.take(DISPLAY_ERROR_MAX_LEN - 1) + seq!['…']
    } else {
        prefix + line
    }
}

/// Formats an error for an information line (see [`display_error_text`]).
pub fn display_error(prefix: &str, err: &str) -> (r: String)
    ensures
        r@ == display_error_text(prefix@, err@),
{
    let chars = to_chars(err);
    let line = single_line_chars(chars.as_slice());
    let mut out = String::from_str(prefix);
    if line.len() > DISPLAY_ERROR_MAX_LEN {
        let mut cut: Vec<char> = Vec::new();
        let mut i: usize = 0;
        while i < DISPLAY_ERROR_MAX_LEN - 1
            invariant
                i <= DISPLAY_ERROR_MAX_LEN - 1,
                line@.len() > DISPLAY_ERROR_MAX_LEN,
                cut@ == line@.take(i as int),
            decreases DISPLAY_ERROR_MAX_LEN - 1 - i,
        {
            cut.push(line[i]);
            i = i + 1;
            assert(cut@ =~= line@.take(i as int));
        }
        cut.push('…');
        let tail = string_from_chars(cut.as_slice());
        out.append(tail.as_str());
        assert(out@ =~= display_error_text(prefix@, err@));
    } else {
        let tail = string_from_chars(line.as_slice());
        out.append(tail.as_str());
    }
    out
}

/// Why an external command failed, as the information lines report it: its standard error
/// trimmed when that is not empty, else its standard output trimmed when that is not empty,
/// else `<program> exited with status <status>`.
pub open spec fn failure_reason_text(
    program: Seq<char>,
    stdout: Seq<char>,
    stderr: Seq<char>,
    status: Seq<char>,
) -> Seq<char> {
    if trim(stderr).len() > 0 {
        trim(stderr)
    } else if trim(stdout).len() > 0 {
        trim(stdout)
    } else {
        program + " exited with status "@ + status
    }
}

/// Builds the reason of a failed external command (see [`failure_reason_text`]); `status` is the
/// exit status as std displays it.
pub fn failure_reason(program: &str, stdout: &str, stderr: &str, status: &str) -> (r: String)
    ensures
        r@ == failure_reason_text(program@, stdout@, stderr@, status@),
{
    let err_chars = to_chars(stderr);
    let err = trim_chars(err_chars.as_slice());
    if err.len() > 0 {
        return string_from_chars(err.as_slice());
    }
    let out_chars = to_chars(stdout);
    let out = trim_chars(out_chars.as_slice());
    if out.len() > 0 {
        return string_from_chars(out.as_slice());
    }
    let mut msg = String::from_str(program);
    msg.append(" exited with status ");
    msg.append(status);
    msg
}

/// An error report is one line: after the prefix it holds no whitespace but plain spaces (no
/// line break, no tab), and at most [`DISPLAY_ERROR_MAX_LEN`] chars.
pub proof fn law_display_error_is_one_short_line(prefix: Seq<char>, err: Seq<char>)
    ensures
        display_error_text(prefix, err).len() <= prefix.len() + DISPLAY_ERROR_MAX_LEN,
        display_error_text(prefix, err).take(prefix.len() as int) == prefix,
        forall|i: int|
            prefix.len() <= i < display_error_text(prefix, err).len() ==> single_line_char(
                #[trigger] display_error_text(prefix, err)[i],
            ),
{
    lemma_single_line_chars(err);
    let line = single_line(err);
    let r = display_error_text(prefix, err);
    assert(r.take(prefix.len() as int) =~= prefix);
    assert forall|i: int| prefix.len() <= i < r.len() implies single_line_char(#[trigger] r[i]) by {
        if line.len() > DISPLAY_ERROR_MAX_LEN {
            if i < prefix.len() + DISPLAY_ERROR_MAX_LEN - 1 {
                assert(r[i] == line[i - prefix.len()]);
            } else {
                assert(r[i] == '…');
            }
        } else {
            assert(r[i] == line[i - prefix.len()]);
        }
    }
}

} // verus!
