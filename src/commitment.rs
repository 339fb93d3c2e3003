//! Content addresses: a commitment is a 256-bit BLAKE3 digest, held as four
//! little-endian 64-bit words so that equality is a plain comparison.
use vstd::prelude::*;

verus! {

/// What BLAKE3 returns on the given input bytes.
pub uninterp spec fn blake3_of(input: Seq<u8>) -> Seq<u8>;

/// Relies on `blake3::hash`: the 32-byte digest of the input, a function of the
/// input bytes alone.
#[verifier::external_body]
pub(crate) fn blake3_digest(input: &Vec<u8>) -> (r: [u8; 32])
    ensures
        r@ == blake3_of(input@),
{
    *blake3::hash(input.as_slice()).as_bytes()
}

/// A 256-bit commitment.
#[derive(Clone, Copy, Debug, PartialEq, Eq, Structural)]
pub struct Commitment {
    pub w0: u64,
    pub w1: u64,
    pub w2: u64,
    pub w3: u64,
}

/// The little-endian value of the eight bytes of `s` from `off` on.
pub open spec fn le_word(s: Seq<u8>, off: int) -> u64 {
    (s[off] as int + s[off + 1] as int * 0x100 + s[off + 2] as int * 0x1_0000 + s[off + 3] as int
        * 0x100_0000 + s[off + 4] as int * 0x1_0000_0000 + s[off + 5] as int * 0x100_0000_0000
        + s[off + 6] as int * 0x1_0000_0000_0000 + s[off + 7] as int * 0x100_0000_0000_0000) as u64
}

/// The commitment whose words are read from 32 digest bytes.
pub open spec fn commitment_of_bytes(s: Seq<u8>) -> Commitment {
    Commitment { w0: le_word(s, 0), w1: le_word(s, 8), w2: le_word(s, 16), w3: le_word(s, 24) }
}

/// The eight little-endian bytes of `x`.
pub open spec fn le_bytes(x: u64) -> Seq<u8> {
    seq![
        (x % 0x100) as u8,
        ((x / 0x100) % 0x100) as u8,
        ((x / 0x1_0000) % 0x100) as u8,
        ((x / 0x100_0000) % 0x100) as u8,
        ((x / 0x1_0000_0000) % 0x100) as u8,
        ((x / 0x100_0000_0000) % 0x100) as u8,
        ((x / 0x1_0000_0000_0000) % 0x100) as u8,
        ((x / 0x100_0000_0000_0000) % 0x100) as u8,
    ]
}

/// The 32 bytes of a commitment, word by word.
pub open spec fn commitment_bytes(c: Commitment) -> Seq<u8> {
    le_bytes(c.w0) + le_bytes(c.w1) + le_bytes(c.w2) + le_bytes(c.w3)
}

fn read_word(b: &[u8; 32], off: usize) -> (r: u64)
    requires
        off + 8 <= 32,
    ensures
        r == le_word(b@, off as int),
{
    let r = b[off] as u64 + b[off + 1] as u64 * 0x100 + b[off + 2] as u64 * 0x1_0000 + b[off + 3] as u64
        * 0x100_0000 + b[off + 4] as u64 * 0x1_0000_0000 + b[off + 5] as u64 * 0x100_0000_0000
        + b[off + 6] as u64 * 0x1_0000_0000_0000 + b[off + 7] as u64 * 0x100_0000_0000_0000;
    r
}

/// The commitment that a 32-byte digest stands for.
pub fn commitment_from_digest(b: &[u8; 32]) -> (r: Commitment)
    ensures
        r == commitment_of_bytes(b@),
{
    Commitment {
        w0: read_word(b, 0),
        w1: read_word(b, 8),
        w2: read_word(b, 16),
        w3: read_word(b, 24),
    }
}

/// Appends the little-endian bytes of `x`.
pub fn push_u64(out: &mut Vec<u8>, x: u64)
    ensures
        final(out)@ == old(out)@ + le_bytes(x),
{
    out.push((x % 0x100) as u8);
    out.push(((x / 0x100) % 0x100) as u8);
    out.push(((x / 0x1_0000) % 0x100) as u8);
    out.push(((x / 0x100_0000) % 0x100) as u8);
    out.push(((x / 0x1_0000_0000) % 0x100) as u8);
    out.push(((x / 0x100_0000_0000) % 0x100) as u8);
    out.push(((x / 0x1_0000_0000_0000) % 0x100) as u8);
    out.push(((x / 0x100_0000_0000_0000) % 0x100) as u8);
    assert(out@ =~= old(out)@ + le_bytes(x));
}

/// Appends the 32 bytes of a commitment.
pub fn push_commitment(out: &mut Vec<u8>, c: Commitment)
    ensures
        final(out)@ == old(out)@ + commitment_bytes(c),
{
    push_u64(out, c.w0);
    push_u64(out, c.w1);
    push_u64(out, c.w2);
    push_u64(out, c.w3);
    assert(out@ =~= old(out)@ + commitment_bytes(c));
}

/// The commitment to a byte string: its BLAKE3 digest.
pub fn commit_bytes(input: &Vec<u8>) -> (r: Commitment)
    ensures
        r == commitment_of_bytes(blake3_of(input@)),
{
    let d = blake3_digest(input);
    commitment_from_digest(&d)
}

} // verus!
