//! Room identities: globally unique 128-bit identifiers assigned at room
//! creation, and their 32-digit hexadecimal display form.

use vstd::prelude::*;
use vstd::assert_by_contradiction;
use vstd::set_lib::{set_int_range, lemma_int_range, lemma_len_subset};
use crate::utils::push_char;

verus! {

/// The stable identity of a room, the key into the dungeon's room arena
/// and link table. Never reused within a session.
pub type RoomId = u128;

/// Relies on uuid::Uuid::new_v4, read back with Uuid::as_u128: a freshly
/// drawn random 128-bit identifier. Nothing is promised of the value.
#[verifier::external_body]
fn draw_random_id() -> (r: u128) {
    uuid::Uuid::new_v4().as_u128()
}

/// Whether `v` occurs in `ids`.
pub fn contains_id(ids: &Vec<RoomId>, v: RoomId) -> (r: bool)
    ensures
        r == ids@.contains(v),
{
    let mut j: usize = 0;
    while j < ids.len()
        invariant
            j <= ids@.len(),
            forall|k: int| 0 <= k < j ==> ids@[k] != v,
        decreases ids@.len() - j,
    {
        if ids[j] == v {
            return true;
        }
        j = j + 1;
    }
    false
}

/// Among the identifiers `0, 1, ..., ids.len()` at least one is unused:
/// there are more candidates than entries.
proof fn lemma_small_id_free(ids: Seq<u128>)
    requires
        ids.len() <= u64::MAX,
    ensures
        exists|v: u128| v <= ids.len() && !ids.contains(v),
{
    let n = ids.len() as int;
    let ms = ids.map_values(|x: u128| x as int);
    assert_by_contradiction!(exists|v: u128| v <= ids.len() && !ids.contains(v), {
        let candidates = set_int_range(0, n + 1);
        let taken = ms.to_set();
        assert forall|c: int| candidates.contains(c) implies taken.contains(c) by {
            assert(0 <= c <= n);
            let v = c as u128;
            assert(v <= ids.len());
            assert(ids.contains(v));
            let j = choose|j: int| 0 <= j < ids.len() && ids[j] == v;
            assert(0 <= j < ms.len() && ms[j] == c);
            assert(ms.contains(c));
        }
        lemma_int_range(0, n + 1);
        ms.lemma_cardinality_of_set();
        lemma_len_subset(candidates, taken);
    });
}

/// Returns a room identity that collides with none of the given ones.
/// A fresh random identifier is drawn; in the vanishingly unlikely event
/// that it is already in use, the smallest unused small identifier is
/// taken instead.
pub fn fresh_room_id(existing: &Vec<RoomId>) -> (r: RoomId)
    ensures
        !existing@.contains(r),
{
    let candidate = draw_random_id();
    if !contains_id(existing, candidate) {
        return candidate;
    }
    let n = existing.len();
    proof {
        lemma_small_id_free(existing@);
    }
    let mut c: usize = 0;
    while c <= n
        invariant
            existing@.len() == n,
            c <= n + 1,
            exists|v: u128| v <= n && !existing@.contains(v),
            forall|v: u128| v < c ==> existing@.contains(v),
        decreases n + 1 - c,
    {
        if !contains_id(existing, c as u128) {
            return c as u128;
        }
        c = c + 1;
    }
    proof {
        let v = choose|v: u128| v <= n && !existing@.contains(v);
        assert(existing@.contains(v));
        assert(false);
    }
    vstd::pervasive::unreached()
}

/// The hexadecimal digit for a value below sixteen.
pub open spec fn hex_digit(d: int) -> char {
    if d == 0 { '0' }
    else if d == 1 { '1' }
    else if d == 2 { '2' }
    else if d == 3 { '3' }
    else if d == 4 { '4' }
    else if d == 5 { '5' }
    else if d == 6 { '6' }
    else if d == 7 { '7' }
    else if d == 8 { '8' }
    else if d == 9 { '9' }
    else if d == 10 { 'a' }
    else if d == 11 { 'b' }
    else if d == 12 { 'c' }
    else if d == 13 { 'd' }
    else if d == 14 { 'e' }
    else { 'f' }
}

fn hex_digit_exec(d: u8) -> (c: char)
    requires
        d < 16,
    ensures
        c == hex_digit(d as int),
{
    match d {
        0 => '0',
        1 => '1',
        2 => '2',
        3 => '3',
        4 => '4',
        5 => '5',
        6 => '6',
        7 => '7',
        8 => '8',
        9 => '9',
        10 => 'a',
        11 => 'b',
        12 => 'c',
        13 => 'd',
        14 => 'e',
        _ => 'f',
    }
}

/// The last `n` hexadecimal digits of `v`, most significant first.
pub open spec fn hex_rec(v: int, n: nat) -> Seq<char>
    decreases n,
{
    if n == 0 {
        Seq::empty()
    } else {
        hex_rec(v / 16, (n - 1) as nat) + seq![hex_digit(v % 16)]
    }
}

/// The display form of a room identity: all 32 hexadecimal digits,
/// most significant first, lower case, no separators.
pub open spec fn room_id_digits(id: RoomId) -> Seq<char> {
    hex_rec(id as int, 32)
}

/// Formats a room identity as its 32 hexadecimal digits.
pub fn room_id_hex(id: RoomId) -> (s: String)
    ensures
        s@ == room_id_digits(id),
{
    let mut digits: Vec<char> = vec!['0'; 32];
    let mut acc: u128 = id;
    let mut k: usize = 0;
    while k < 32
        invariant
            k <= 32,
            digits@.len() == 32,
            hex_rec(id as int, 32) == hex_rec(acc as int, (32 - k) as nat)
                + digits@.subrange(32 - k, 32),
        decreases 32 - k,
    {
        let ghost acc0 = acc as int;
        let ghost digits0 = digits@;
        let d = (acc % 16) as u8;
        let c = hex_digit_exec(d);
        digits[31 - k] = c;
        acc = acc / 16;
        k = k + 1;
        proof {
            assert(hex_rec(acc0, (32 - (k - 1)) as nat)
                == hex_rec(acc0 / 16, (32 - k) as nat) + seq![hex_digit(acc0 % 16)]);
            assert(digits@.subrange(32 - k, 32)
                =~= seq![hex_digit(acc0 % 16)] + digits0.subrange(32 - k + 1, 32));
            assert(hex_rec(acc0 / 16, (32 - k) as nat) + digits@.subrange(32 - k, 32)
                =~= hex_rec(acc0, (32 - (k - 1)) as nat) + digits0.subrange(32 - k + 1, 32));
        }
    }
    assert(digits@ =~= hex_rec(id as int, 32)) by {
        assert(digits@.subrange(0, 32) =~= digits@);
    }
    let mut s = String::new();
    let mut i: usize = 0;
    while i < 32
        invariant
            i <= 32,
            digits@.len() == 32,
            s@ == digits@.subrange(0, i as int),
        decreases 32 - i,
    {
        push_char(&mut s, digits[i]);
        i = i + 1;
        proof {
            assert(s@ =~= digits@.subrange(0, i as int));
        }
    }
    proof {
        assert(s@ =~= digits@);
    }
    s
}

} // verus!
