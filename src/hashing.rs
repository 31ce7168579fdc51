use vstd::prelude::*;
use vstd::string::*;

verus! {

/// ASCII-only case folding of one code point: `A`..=`Z` map to `a`..=`z`.
pub open spec fn fold_code(c: u32) -> u32 {
    if 65 <= c <= 90 {
        (c + 32) as u32
    } else {
        c
    }
}

/// ASCII-only case folding of one character.
pub open spec fn ascii_lower(c: char) -> char {
    if 'A' <= c <= 'Z' {
        ((c as u32) + 32) as char
    } else {
        c
    }
}

/// The text with every ASCII capital letter replaced by its small letter.
pub open spec fn lowercase(s: Seq<char>) -> Seq<char> {
    s.map_values(|c: char| ascii_lower(c))
}

/// The code points of a text.
pub open spec fn codes_of_chars(s: Seq<char>) -> Seq<u32> {
    s.map_values(|c: char| c as u32)
}

/// The code points of a text held as single bytes.
pub open spec fn codes_of_bytes(b: Seq<u8>) -> Seq<u32> {
    b.map_values(|x: u8| x as u32)
}

/// Polynomial accumulation `h = h * 65599 + folded(c)` in 128-bit wrapping arithmetic.
pub open spec fn poly_hash(codes: Seq<u32>) -> u128
    decreases codes.len(),
{
    if codes.len() == 0 {
        0
    } else {
        poly_hash(codes.drop_last()).wrapping_mul(65599).wrapping_add(
            fold_code(codes.last()) as u128,
        )
    }
}

/// One round of the finaliser: divide by ten, fold the high bits in, multiply.
pub open spec fn mix_round(h: u128) -> u128 {
    let d = h / 10;
    (d ^ (d >> 33u128)).wrapping_mul(0x5bd1e995)
}

/// Up to `rounds` finaliser rounds, stopping early once the value is zero.
pub open spec fn finalize(h: u128, rounds: u32) -> u128
    decreases rounds,
{
    if h > 0 && rounds > 0 {
        finalize(mix_round(h), (rounds - 1) as u32)
    } else {
        h
    }
}

/// Number of finaliser rounds of the built-in hash.
pub const FINAL_ROUNDS: u32 = 38;

/// The built-in 128-bit identifier of a text given by its code points.
pub open spec fn hash_codes(codes: Seq<u32>) -> u128 {
    finalize(poly_hash(codes), FINAL_ROUNDS)
}

/// The built-in identifier of a text.
pub open spec fn hash_text(s: Seq<char>) -> u128 {
    hash_codes(codes_of_chars(s))
}

fn fold_code_exec(c: u32) -> (r: u32)
    ensures
        r == fold_code(c),
{
    if 65 <= c && c <= 90 {
        c + 32
    } else {
        c
    }
}

fn finalize_exec(h: u128) -> (r: u128)
    ensures
        r == finalize(h, FINAL_ROUNDS),
{
    let mut hash: u128 = h;
    let mut counter: u32 = FINAL_ROUNDS;
    while hash > 0 && counter > 0
        invariant
            finalize(hash, counter) == finalize(h, FINAL_ROUNDS),
        decreases counter,
    {
        hash = hash / 10;
        hash = hash ^ (hash >> 33u32);
        hash = hash.wrapping_mul(0x5bd1e995);
        counter = counter - 1;
    }
    hash
}

/// The built-in hash engine: ASCII-folds each character, accumulates a
/// polynomial hash and runs the finaliser. Case-insensitive and a function of
/// the text alone.
pub fn default_hasher(input: &str) -> (r: u128)
    ensures
        r == hash_text(input@),
{
    let n = input.unicode_len();
    let mut hash: u128 = 0;
    let mut i: usize = 0;
    while i < n
        invariant
            n == input@.len(),
            i <= n,
            hash == poly_hash(codes_of_chars(input@).take(i as int)),
        decreases n - i,
    {
        let c = input.get_char(i);
        proof {
            let all = codes_of_chars(input@);
            assert(all.take(i + 1).drop_last() =~= all.take(i as int));
        }
        hash = hash.wrapping_mul(65599).wrapping_add(fold_code_exec(c as u32) as u128);
        i = i + 1;
    }
    proof {
        assert(codes_of_chars(input@).take(n as int) =~= codes_of_chars(input@));
    }
    finalize_exec(hash)
}

/// A strategy that turns a name, held as bytes, into a 128-bit identifier.
/// Identifiers computed under one engine mean nothing under another.
pub trait HashEngine {
    /// The identifier that this engine gives to `text`.
    spec fn spec_hash(&self, text: Seq<u8>) -> u128;

    fn hash_bytes(&self, text: &[u8]) -> (r: u128)
        ensures
            r == self.spec_hash(text@),
    ;
}

/// The built-in engine: the bytes of a name are taken as its code points.
#[derive(Clone, Copy, Debug)]
pub struct DefaultEngine;

impl HashEngine for DefaultEngine {
    open spec fn spec_hash(&self, text: Seq<u8>) -> u128 {
        hash_codes(codes_of_bytes(text))
    }

    fn hash_bytes(&self, text: &[u8]) -> (r: u128) {
        let n = text.len();
        let mut hash: u128 = 0;
        let mut i: usize = 0;
        while i < n
            invariant
                n == text@.len(),
                i <= n,
                hash == poly_hash(codes_of_bytes(text@).take(i as int)),
            decreases n - i,
        {
            proof {
                let all = codes_of_bytes(text@);
                assert(all.take(i + 1).drop_last() =~= all.take(i as int));
            }
            hash = hash.wrapping_mul(65599).wrapping_add(fold_code_exec(text[i] as u32) as u128);
            i = i + 1;
        }
        proof {
            assert(codes_of_bytes(text@).take(n as int) =~= codes_of_bytes(text@));
        }
        finalize_exec(hash)
    }
}

proof fn lemma_poly_hash_folded(s: Seq<char>)
    ensures
        poly_hash(codes_of_chars(s)) == poly_hash(codes_of_chars(lowercase(s))),
    decreases s.len(),
{
    if s.len() > 0 {
        let c = s.last();
        lemma_poly_hash_folded(s.drop_last());
        assert(codes_of_chars(s).drop_last() =~= codes_of_chars(s.drop_last()));
        assert(codes_of_chars(lowercase(s)).drop_last() =~= codes_of_chars(
            lowercase(s.drop_last()),
        ));
        assert(fold_code(c as u32) == fold_code(ascii_lower(c) as u32));
    }
}

/// The built-in hash ignores ASCII case: a text and its lowercase form have
/// the same identifier.
pub proof fn lemma_hash_case_insensitive(s: Seq<char>)
    ensures
        hash_text(s) == hash_text(lowercase(s)),
{
    lemma_poly_hash_folded(s);
}

/// The built-in hash is a function of the text alone: equal texts, hashed at
/// any two points, give equal identifiers.
pub proof fn lemma_hash_deterministic(s: Seq<char>, t: Seq<char>)
    requires
        s == t,
    ensures
        hash_text(s) == hash_text(t),
{
}

} // verus!
