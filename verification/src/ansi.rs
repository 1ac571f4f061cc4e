//! ANSI escape sequences for 24-bit terminal colors.
use vstd::prelude::*;
use vstd::string::StringExecFns;

use crate::text::push_char;

verus! {

broadcast use vstd::string::group_string_axioms;

/// The ASCII digit for `d`, which is below ten.
pub open spec fn digit_char(d: nat) -> char {
    ((d + 48) as u32) as char
}

/// `n` written in base ten without leading zeros, as std's `Display` writes an integer.
pub open spec fn decimal_text(n: nat) -> Seq<char>
    decreases n,
{
    if n < 10 {
        seq![digit_char(n)]
    } else {
        decimal_text(n / 10).push(digit_char(n % 10))
    }
}

/// An ANSI escape that sets the foreground (`kind` 38) or background (`kind` 48) color.
pub open spec fn color_escape_text(kind: Seq<char>, rgb: (u8, u8, u8)) -> Seq<char> {
    "\x1B["@ + kind + ";2;"@ + decimal_text(rgb.0 as nat) + ";"@ + decimal_text(rgb.1 as nat)
        + ";"@ + decimal_text(rgb.2 as nat) + "m"@
}

/// Appends the decimal digits of `n`.
fn push_decimal(s: &mut String, n: u8)
    ensures
        final(s)@ == old(s)@ + decimal_text(n as nat),
{
    let ghost start = s@;
    if n >= 100 {
        let a = ((n / 100) + 48) as char;
        let b = (((n / 10) % 10) + 48) as char;
        let c = ((n % 10) + 48) as char;
        push_char(s, a);
        push_char(s, b);
        push_char(s, c);
        assert((n / 10) / 10 == n / 100);
        assert(a == digit_char((n / 100) as nat));
        assert(b == digit_char(((n / 10) % 10) as nat));
        assert(c == digit_char((n % 10) as nat));
        assert(decimal_text((n / 100) as nat) == seq![a]);
        assert(decimal_text((n / 10) as nat) == seq![a].push(b));
        assert(decimal_text(n as nat) == seq![a].push(b).push(c));
        assert(s@ == start.push(a).push(b).push(c));
        assert(start.push(a).push(b).push(c) =~= start + seq![a].push(b).push(c));
    } else if n >= 10 {
        let a = ((n / 10) + 48) as char;
        let b = ((n % 10) + 48) as char;
        push_char(s, a);
        push_char(s, b);
        assert(a == digit_char((n / 10) as nat));
        assert(b == digit_char((n % 10) as nat));
        assert(decimal_text((n / 10) as nat) == seq![a]);
        assert(decimal_text(n as nat) == seq![a].push(b));
        assert(start.push(a).push(b) =~= start + seq![a].push(b));
    } else {
        let a = (n + 48) as char;
        push_char(s, a);
        assert(a == digit_char(n as nat));
        assert(start.push(a) =~= start + seq![a]);
    }
}

/// The escape that sets the foreground color to `rgb`: `ESC[38;2;R;G;Bm`.
pub fn fg_escape(rgb: (u8, u8, u8)) -> (r: String)
    ensures
        r@ == color_escape_text("38"@, rgb),
{
    color_escape("38", rgb)
}

/// The escape that sets the background color to `rgb`: `ESC[48;2;R;G;Bm`.
pub fn bg_escape(rgb: (u8, u8, u8)) -> (r: String)
    ensures
        r@ == color_escape_text("48"@, rgb),
{
    color_escape("48", rgb)
}

fn color_escape(kind: &str, rgb: (u8, u8, u8)) -> (r: String)
    ensures
        r@ == color_escape_text(kind@, rgb),
{
    let (red, green, blue) = rgb;
    let mut s = String::from_str("\x1B[");
    s.append(kind);
    s.append(";2;");
    push_decimal(&mut s, red);
    s.append(";");
    push_decimal(&mut s, green);
    s.append(";");
    push_decimal(&mut s, blue);
    s.append("m");
    s
}

} // verus!
