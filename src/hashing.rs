//! Text canonicalisation by character sorting, Keccak-256 hashing, and the
//! wall clock.
use crate::bignum::{BigNat, be_bytes_value, big_from_bytes_be, lemma_be_bytes_value_bound};
use vstd::arithmetic::power2::pow2;
use std::time::{SystemTime, UNIX_EPOCH};
use tiny_keccak::{Hasher, Keccak};
use vstd::prelude::*;
use vstd::relations::{sorted_by, total_ordering};
use vstd::seq_lib::lemma_sorted_unique;
use vstd::string::*;

verus! {

/// serde_json's error type, which `sort_characters` names in its result
/// type and never returns.
#[verifier::external_type_specification]
#[verifier::external_body]
pub struct ExJsonError(serde_json::Error);

/// The Keccak-256 digest of the UTF-8 encoding of a text.
pub uninterp spec fn keccak256_digest(text: Seq<char>) -> Seq<u8>;

/// Keccak-256 of a text, read as a big-endian number.
pub open spec fn keccak_value(text: Seq<char>) -> nat {
    be_bytes_value(keccak256_digest(text))
}

/// Characters ordered by their scalar value.
pub open spec fn char_leq(a: char, b: char) -> bool {
    a <= b
}

/// The characters of a text in ascending order.
pub open spec fn sorted_text(text: Seq<char>) -> Seq<char> {
    text.sort_by(|a: char, b: char| char_leq(a, b))
}

proof fn lemma_char_leq_total()
    ensures
        total_ordering(|a: char, b: char| char_leq(a, b)),
{
}

/// Texts that are anagrams of each other sort to the same text.
pub proof fn lemma_sorted_text_of_anagrams(a: Seq<char>, b: Seq<char>)
    requires
        a.to_multiset() == b.to_multiset(),
    ensures
        sorted_text(a) == sorted_text(b),
{
    let leq = |x: char, y: char| char_leq(x, y);
    lemma_char_leq_total();
    a.lemma_sort_by_ensures(leq);
    b.lemma_sort_by_ensures(leq);
    lemma_sorted_unique(a.sort_by(leq), b.sort_by(leq), leq);
}

/// The characters of `s`, in order.
fn chars_of(s: &str) -> (r: Vec<char>)
    ensures
        r@ == s@,
{
    let n = s.unicode_len();
    let mut r: Vec<char> = Vec::new();
    let mut i: usize = 0;
    while i < n
        invariant
            n == s@.len(),
            i <= n,
            r@ == s@.subrange(0, i as int),
        decreases n - i,
    {
        r.push(s.get_char(i));
        i = i + 1;
    }
    assert(r@ =~= s@);
    r
}

/// Relies on `slice::sort_unstable`: the same characters in ascending order.
#[verifier::external_body]
fn sort_chars(v: &mut Vec<char>)
    ensures
        final(v)@.to_multiset() == old(v)@.to_multiset(),
        sorted_by(final(v)@, |a: char, b: char| char_leq(a, b)),
{
    v.sort_unstable();
}

/// Relies on collecting a `char` iterator into a `String`: the characters in order.
#[verifier::external_body]
fn string_of(v: &Vec<char>) -> (r: String)
    ensures
        r@ == v@,
{
    v.iter().collect()
}

/// Sorts the characters of `input`. Two texts that are anagrams of each
/// other give the same result.
pub fn sort_characters(input: &str) -> (r: Result<String, serde_json::Error>)
    ensures
        r is Ok,
        r matches Ok(s) && s@ == sorted_text(input@),
{
    let mut cvec = chars_of(input);
    let ghost original = cvec@;
    sort_chars(&mut cvec);
    proof {
        let leq = |a: char, b: char| char_leq(a, b);
        lemma_char_leq_total();
        original.lemma_sort_by_ensures(leq);
        lemma_sorted_unique(cvec@, original.sort_by(leq), leq);
    }
    Ok(string_of(&cvec))
}

/// Relies on tiny_keccak's Keccak-256 (`Keccak::v256`, `update`,
/// `finalize`): the 32-byte digest of the text's UTF-8 bytes.
#[verifier::external_body]
fn keccak256_bytes(input: &str) -> (r: Vec<u8>)
    ensures
        r@ == keccak256_digest(input@),
        r@.len() == 32,
{
    let mut hasher = Keccak::v256();
    hasher.update(input.as_bytes());
    let mut output = [0u8; 32];
    hasher.finalize(&mut output);
    output.to_vec()
}

/// Keccak-256 of `input`, as a number.
pub fn keccak256(input: &str) -> (r: BigNat)
    ensures
        r.value() == keccak_value(input@),
        r.value() < pow2(256),
{
    let bytes = keccak256_bytes(input);
    proof {
        lemma_be_bytes_value_bound(bytes@);
    }
    big_from_bytes_be(&bytes)
}

/// Relies on `SystemTime::now` and `duration_since(UNIX_EPOCH)`: whole
/// seconds since the Unix epoch, or `None` when the clock reads earlier.
/// Nothing is promised about the value.
#[verifier::external_body]
pub fn get_current_timestamp() -> (r: Option<u64>) {
    match SystemTime::now().duration_since(UNIX_EPOCH) {
        Ok(duration) => Some(duration.as_secs()),
        Err(_) => None,
    }
}

} // verus!
