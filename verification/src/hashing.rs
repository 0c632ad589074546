//! Content hashing for cache keys: a key (usually a URL) is digested and
//! hex-encoded, and the result serves both as an on-disk file name and as
//! the input of the lock-shard choice.
use vstd::prelude::*;

verus! {

/// Number of lock shards used to approximate per-key mutual exclusion.
pub const SHARD_COUNT: usize = 64;

/// The 16-byte digest that `md5::compute` derives from a string's bytes.
/// The digest is a function of the characters alone.
pub uninterp spec fn md5_of_str(s: Seq<char>) -> Seq<u8>;

/// Relies on `md5::compute`: a 16-byte digest computed from the input bytes
/// alone.
#[verifier::external_body]
fn md5_digest(s: &str) -> (r: Vec<u8>)
    ensures
        r@ == md5_of_str(s@),
        r@.len() == 16,
{
    md5::compute(s.as_bytes()).0.to_vec()
}

/// The lowercase hexadecimal digit for a value below 16.
pub open spec fn hex_digit(v: u8) -> char {
    if v == 0 {
        '0'
    } else if v == 1 {
        '1'
    } else if v == 2 {
        '2'
    } else if v == 3 {
        '3'
    } else if v == 4 {
        '4'
    } else if v == 5 {
        '5'
    } else if v == 6 {
        '6'
    } else if v == 7 {
        '7'
    } else if v == 8 {
        '8'
    } else if v == 9 {
        '9'
    } else if v == 10 {
        'a'
    } else if v == 11 {
        'b'
    } else if v == 12 {
        'c'
    } else if v == 13 {
        'd'
    } else if v == 14 {
        'e'
    } else {
        'f'
    }
}

/// Lowercase hexadecimal encoding: two digits per byte, high nibble first.
pub open spec fn hex_of(b: Seq<u8>) -> Seq<char>
    decreases b.len(),
{
    if b.len() == 0 {
        Seq::empty()
    } else {
        seq![hex_digit(b[0] / 16), hex_digit(b[0] % 16)] + hex_of(b.drop_first())
    }
}

/// Relies on `hex::encode`: each byte becomes two lowercase hexadecimal
/// digits, high nibble first, in input order.
#[verifier::external_body]
fn to_hex(b: &Vec<u8>) -> (r: String)
    ensures
        r@ == hex_of(b@),
{
    hex::encode(b)
}

/// The content hash of a key: the lowercase hex form of its digest.
pub open spec fn content_hash_of(s: Seq<char>) -> Seq<char> {
    hex_of(md5_of_str(s))
}

/// Derive the content hash used as cache file name and shard key.
pub fn content_hash(key: &str) -> (r: String)
    ensures
        r@ == content_hash_of(key@),
        r@.len() == 32,
{
    let d = md5_digest(key);
    let r = to_hex(&d);
    proof {
        lemma_hex_len(d@);
    }
    r
}

proof fn lemma_hex_len(b: Seq<u8>)
    ensures
        hex_of(b).len() == 2 * b.len(),
    decreases b.len(),
{
    if b.len() > 0 {
        lemma_hex_len(b.drop_first());
    }
}

/// The shard a key is assigned to: the digest's last byte, reduced modulo
/// the shard count. Distinct keys may share a shard; they then serialize
/// against each other, an accepted throughput/simplicity trade-off.
pub open spec fn shard_of_spec(key: Seq<char>) -> int {
    (md5_of_str(key)[15] as int) % 64
}

/// Pick the lock shard for a key; the choice is a function of the key alone.
pub fn shard_of(key: &str) -> (i: usize)
    ensures
        i == shard_of_spec(key@),
        i < SHARD_COUNT,
{
    let d = md5_digest(key);
    (d[15] % 64) as usize
}

} // verus!
