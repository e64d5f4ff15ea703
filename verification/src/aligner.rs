//! Names under which the timings of words are kept.

use crate::auth::hex_digit;
use crate::text;
use crate::text::decimal;
use std::collections::hash_map::DefaultHasher;
use std::hash::Hasher;
use vstd::prelude::*;

verus! {

/// A number in base sixteen.
pub open spec fn hexadecimal(n: nat) -> Seq<char>
    decreases n,
{
    if n < 16 {
        seq![hex_digit(n as int)]
    } else {
        hexadecimal(n / 16).push(hex_digit(n as int % 16))
    }
}

/// Writes a number in base sixteen.
fn hexadecimal_text(n: u64) -> (r: String)
    ensures
        r@ == hexadecimal(n as nat),
    decreases n,
{
    let d: u8 = (n % 16) as u8;
    let c: char = if d < 10 {
        (48u8 + d) as char
    } else {
        (87u8 + d) as char
    };
    if n < 16 {
        let mut out = String::new();
        out.push(c);
        assert(out@ =~= hexadecimal(n as nat));
        out
    } else {
        let mut out = hexadecimal_text(n / 16);
        out.push(c);
        out
    }
}

/// `std::hash::Hash::hash` feeds lines to a hasher. What it feeds is left open by the standard
/// library, so nothing is said of it.
#[verifier::external_body]
fn feed(lines: &Vec<String>, hasher: &mut DefaultHasher)
{
    std::hash::Hash::hash(lines.as_slice(), hasher)
}

/// The name for a track and for lines with this number: the track, a colon, and the number in
/// base sixteen. Lines with the same number share a name.
pub open spec fn key_with(track_id: u64, hash: u64) -> Seq<char> {
    decimal(track_id as nat) + ":"@ + hexadecimal(hash as nat)
}

/// The name for a track and for lines with this number.
pub fn key_for(track_id: u64, hash: u64) -> (r: String)
    ensures
        r@ == key_with(track_id, hash),
{
    text::join3(text::decimal_text(track_id).as_str(), ":", hexadecimal_text(hash).as_str())
}

/// The name for a track and these lines.
pub fn align_key(track_id: u64, lines: &Vec<String>) -> (r: String)
    ensures
        exists|hash: u64| r@ == #[trigger] key_with(track_id, hash),
{
    let mut hasher = DefaultHasher::new();
    feed(lines, &mut hasher);
    let hash: u64 = hasher.finish();
    key_for(track_id, hash)
}

/// A number in base sixteen ends with its last digit behind the number of its sixteens, so no two
/// numbers are written alike.
pub proof fn law_numbers_in_base_sixteen(n: nat)
    ensures
        hexadecimal(n).last() == hex_digit(n as int % 16),
        n >= 16 ==> hexadecimal(n).drop_last() == hexadecimal(n / 16),
        n < 16 ==> hexadecimal(n).len() == 1,
        forall|i: int|
            0 <= i < hexadecimal(n).len() ==> '0' <= #[trigger] hexadecimal(n)[i] <= '9' || 'a'
                <= hexadecimal(n)[i] <= 'f',
    decreases n,
{
    if n >= 16 {
        law_numbers_in_base_sixteen(n / 16);
        assert(hexadecimal(n).drop_last() =~= hexadecimal(n / 16));
    }
}

/// A name begins with the number of its track and a colon, so names of different tracks differ.
pub proof fn law_names_tell_the_track(a: u64, x: u64, b: u64, y: u64)
    requires
        key_with(a, x) == key_with(b, y),
    ensures
        a == b,
{
    text::law_parted_at_the_colon(a, hexadecimal(x as nat));
    text::law_parted_at_the_colon(b, hexadecimal(y as nat));
}

} // verus!
