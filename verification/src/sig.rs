use vstd::prelude::*;

verus! {

/// Multiplier of one tag step.
pub const TAG_PRIME: u64 = 0x100000001b3;

/// Starting accumulator of a tag.
pub const TAG_OFFSET: u64 = 0xcbf29ce484222325;

/// Separates the key from the payload in a tag's input.
pub const TAG_SEPARATOR: u8 = 0xaa;

/// One step of the running tag: absorb a byte, multiply modulo 2^64.
pub open spec fn tag_step(acc: u64, byte: u8) -> u64 {
    vstd::wrapping::u64_specs::wrapping_mul(acc ^ (byte as u64), TAG_PRIME)
}

/// The accumulator after absorbing every byte of `s`, starting from `acc`.
pub open spec fn tag_fold(acc: u64, s: Seq<u8>) -> u64
    decreases s.len(),
{
    if s.len() == 0 {
        acc
    } else {
        tag_step(tag_fold(acc, s.drop_last()), s.last())
    }
}

/// The signature tag of `payload` under `key`. This crate's caches care only
/// that a signature is a deterministic function of key and payload that a
/// verifier recomputes; the strength of the scheme is outside their concern,
/// so the tag is a plain keyed checksum.
pub open spec fn sig_tag(key: Seq<u8>, payload: Seq<u8>) -> u64 {
    tag_fold(tag_step(tag_fold(TAG_OFFSET, key), TAG_SEPARATOR), payload)
}

/// Absorbs all of `s` into the accumulator.
fn absorb(acc: u64, s: &Vec<u8>) -> (r: u64)
    ensures
        r == tag_fold(acc, s@),
{
    let mut a = acc;
    let mut i: usize = 0;
    while i < s.len()
        invariant
            i <= s@.len(),
            a == tag_fold(acc, s@.take(i as int)),
        decreases s@.len() - i,
    {
        proof {
            assert(s@.take(i + 1).drop_last() =~= s@.take(i as int));
        }
        a = (a ^ (s[i] as u64)).wrapping_mul(TAG_PRIME);
        i += 1;
    }
    proof {
        assert(s@.take(s@.len() as int) =~= s@);
    }
    a
}

/// The signature tag of `payload` under `key`.
pub fn compute_tag(key: &Vec<u8>, payload: &Vec<u8>) -> (r: u64)
    ensures
        r == sig_tag(key@, payload@),
{
    let keyed = absorb(TAG_OFFSET, key);
    let separated = (keyed ^ (TAG_SEPARATOR as u64)).wrapping_mul(TAG_PRIME);
    absorb(separated, payload)
}

/// Whether `signature` verifies for `payload` under `key`.
pub fn verify_signature(key: &Vec<u8>, payload: &Vec<u8>, signature: u64) -> (r: bool)
    ensures
        r == (signature == sig_tag(key@, payload@)),
{
    compute_tag(key, payload) == signature
}

/// The eight little-endian bytes of a 64-bit value.
pub open spec fn u64_le_bytes(v: u64) -> Seq<u8> {
    seq![
        (v & 0xff) as u8,
        ((v >> 8) & 0xff) as u8,
        ((v >> 16) & 0xff) as u8,
        ((v >> 24) & 0xff) as u8,
        ((v >> 32) & 0xff) as u8,
        ((v >> 40) & 0xff) as u8,
        ((v >> 48) & 0xff) as u8,
        ((v >> 56) & 0xff) as u8,
    ]
}

/// Writes a 64-bit value as eight little-endian bytes.
pub fn u64_to_le_bytes(v: u64) -> (r: Vec<u8>)
    ensures
        r@ == u64_le_bytes(v),
{
    let mut r: Vec<u8> = Vec::new();
    r.push((v & 0xff) as u8);
    r.push(((v >> 8) & 0xff) as u8);
    r.push(((v >> 16) & 0xff) as u8);
    r.push(((v >> 24) & 0xff) as u8);
    r.push(((v >> 32) & 0xff) as u8);
    r.push(((v >> 40) & 0xff) as u8);
    r.push(((v >> 48) & 0xff) as u8);
    r.push(((v >> 56) & 0xff) as u8);
    proof {
        assert(r@ =~= u64_le_bytes(v));
    }
    r
}

/// The public key bytes a seed determines: the tag of the seed under an
/// empty key, in little-endian bytes.
pub open spec fn key_of_seed(seed: Seq<u8>) -> Seq<u8> {
    u64_le_bytes(sig_tag(Seq::empty(), seed))
}

/// Derives a public key from a seed, deterministically.
pub fn key_from_seed(seed: &Vec<u8>) -> (r: Vec<u8>)
    ensures
        r@ == key_of_seed(seed@),
{
    let empty: Vec<u8> = Vec::new();
    let tag = compute_tag(&empty, seed);
    u64_to_le_bytes(tag)
}

} // verus!
