//! Text as sequences of characters: reading a string's characters, writing
//! them back, and the decimal form of small numbers.

use vstd::prelude::*;
use vstd::std_specs::iter::IteratorSpec;
use vstd::string::StringExecFns;
use crate::model::Color;

verus! {

/// `String::push` appends one character at the end of the string and leaves
/// the characters before it as they were.
pub assume_specification[ String::push ](s: &mut String, ch: char)
    ensures
        final(s)@ == old(s)@.push(ch),
;

/// The characters of `s`, in order.
pub fn chars_of(s: &str) -> (out: Vec<char>)
    ensures
        out@ == s@,
{
    let mut out: Vec<char> = Vec::new();
    let mut rest = s.chars();
    loop
        invariant
            s@ == out@ + rest.remaining(),
            rest.decrease() is Some,
        ensures
            out@ == s@,
        decreases rest.decrease()->0,
    {
        broadcast use vstd::string::group_string_axioms;

        match rest.next() {
            Some(ch) => {
                out.push(ch);
                assert(s@ =~= out@ + rest.remaining());
            },
            None => {
                assert(s@ =~= out@);
                break ;
            },
        }
    }
    out
}

/// Appends `chars[from..to]` to `out`.
pub fn push_range(out: &mut String, chars: &Vec<char>, from: usize, to: usize)
    requires
        from <= to <= chars.len(),
    ensures
        final(out)@ == old(out)@ + chars@.subrange(from as int, to as int),
{
    let mut i: usize = from;
    while i < to
        invariant
            from <= i <= to <= chars.len(),
            out@ == old(out)@ + chars@.subrange(from as int, i as int),
        decreases to - i,
    {
        out.push(chars[i]);
        i += 1;
        assert(out@ =~= old(out)@ + chars@.subrange(from as int, i as int));
    }
}

/// The character that writes the digit `d`, for `d` under ten.
pub open spec fn digit(d: int) -> char {
    (48 + d) as char
}

/// `n` in decimal, without leading zeros.
pub open spec fn decimal(n: nat) -> Seq<char>
    decreases n,
{
    if n < 10 {
        seq![digit(n as int)]
    } else {
        decimal(n / 10).push(digit((n % 10) as int))
    }
}

/// The stroke colour of `color` as text. The channels are written in the
/// order red, blue, green.
pub open spec fn stroke_text(color: Color) -> Seq<char> {
    "rgb("@ + decimal(color.r as nat) + ", "@ + decimal(color.b as nat) + ", "@ + decimal(
        color.g as nat,
    ) + ")"@
}

fn digit_char(d: u8) -> (ch: char)
    requires
        d < 10,
    ensures
        ch == digit(d as int),
{
    (48u8 + d) as char
}

/// Appends `n` in decimal to `out`.
pub fn push_decimal(out: &mut String, n: u8)
    ensures
        final(out)@ == old(out)@ + decimal(n as nat),
{
    reveal_with_fuel(decimal, 3);
    if n >= 100 {
        out.push(digit_char(n / 100));
    }
    if n >= 10 {
        out.push(digit_char((n / 10) % 10));
    }
    out.push(digit_char(n % 10));
    assert(out@ =~= old(out)@ + decimal(n as nat));
}

/// `n` in decimal.
pub fn decimal_string(n: u8) -> (out: String)
    ensures
        out@ == decimal(n as nat),
{
    let mut out = String::new();
    push_decimal(&mut out, n);
    assert(out@ =~= decimal(n as nat));
    out
}

/// The stroke colour of `color` as text, such as `rgb(255, 0, 0)`.
pub fn stroke_string(color: Color) -> (out: String)
    ensures
        out@ == stroke_text(color),
{
    let mut out = String::new();
    out.append("rgb(");
    push_decimal(&mut out, color.r);
    out.append(", ");
    push_decimal(&mut out, color.b);
    out.append(", ");
    push_decimal(&mut out, color.g);
    out.append(")");
    assert(out@ =~= stroke_text(color));
    out
}

} // verus!
