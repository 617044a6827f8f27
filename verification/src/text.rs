//! Building the texts of messages: numbers in decimal, and concatenation.
use vstd::prelude::*;

verus! {

/// The digit character of `d` (0 to 9).
pub open spec fn digit_char(d: nat) -> char {
    (48 + d) as char
}

/// `n` written in decimal, without leading zeros.
pub open spec fn decimal(n: nat) -> Seq<char>
    decreases n,
{
    if n < 10 {
        seq![digit_char(n)]
    } else {
        decimal(n / 10).push(digit_char(n % 10))
    }
}

/// `usize::to_string`: the number in decimal, as its `Display` writes an
/// integer.
#[verifier::external_body]
pub(crate) fn decimal_text(n: usize) -> (r: String)
    ensures
        r@ == decimal(n as nat),
{
    n.to_string()
}

/// `String::push_str`: appends `t` to the end of `s`.
#[verifier::external_body]
pub(crate) fn append_text(s: &mut String, t: &str)
    ensures
        final(s)@ == old(s)@ + t@,
{
    s.push_str(t)
}

/// A `String` holding `t`.
pub(crate) fn owned_text(t: &str) -> (r: String)
    ensures
        r@ == t@,
{
    t.to_string()
}

/// `a` followed by `b`.
pub(crate) fn joined(a: &str, b: &str) -> (r: String)
    ensures
        r@ == a@ + b@,
{
    let mut s = owned_text(a);
    append_text(&mut s, b);
    s
}

/// `String::push`: appends `c` to the end of `s`.
#[verifier::external_body]
pub(crate) fn append_char(s: &mut String, c: char)
    ensures
        final(s)@ == old(s)@.push(c),
{
    s.push(c)
}

} // verus!
