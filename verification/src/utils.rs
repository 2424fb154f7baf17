//! Randomness helpers. All randomness flows through `rand::random`;
//! nothing is assumed about the values drawn, only about how they are
//! narrowed into the caller's range.

use vstd::prelude::*;

verus! {

/// Relies on rand::random: draws a value of type T from the standard
/// distribution. Nothing can be promised of a random value.
pub assume_specification<T>[ rand::random::<T> ]() -> (r: T)
    where
        rand::distributions::Standard: rand::distributions::Distribution<T>,
;

/// Relies on String::push: appends one character at the end of the string.
#[verifier::external_body]
pub(crate) fn push_char(s: &mut String, c: char)
    ensures
        final(s)@ == old(s)@.push(c),
{
    s.push(c);
}

/// Returns a random number within the given half-open range.
pub fn rnd_within(lo: usize, hi: usize) -> (r: usize)
    requires
        lo < hi,
    ensures
        lo <= r < hi,
{
    let raw = rand::random::<usize>();
    raw % (hi - lo) + lo
}

/// Returns a random number less than the given number.
pub fn rnd_lt(x: usize) -> (r: usize)
    requires
        x > 0,
    ensures
        r < x,
{
    rand::random::<usize>() % x
}

/// A printable, non-space ASCII character.
pub open spec fn is_graphic_char(c: char) -> bool {
    0x21 <= c as u32 <= 0x7e
}

/// Returns a random character, uniform over the printable ASCII range.
pub fn rnd_ch() -> (c: char)
    ensures
        is_graphic_char(c),
{
    let raw = rand::random::<usize>();
    let b: u8 = 0x21 + (raw % 94) as u8;
    b as char
}

/// Returns a string of random printable characters of the given length.
pub fn rnd_string(len: usize) -> (s: String)
    ensures
        s@.len() == len,
        forall|i: int| 0 <= i < len ==> is_graphic_char(s@[i]),
{
    let mut s = String::new();
    let mut i: usize = 0;
    while i < len
        invariant
            i <= len,
            s@.len() == i,
            forall|j: int| 0 <= j < i ==> is_graphic_char(s@[j]),
        decreases len - i,
    {
        let c = rnd_ch();
        push_char(&mut s, c);
        i = i + 1;
    }
    s
}

} // verus!
