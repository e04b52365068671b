//! The commitment digest of a point and the scalar derived from a sum, both over SHA-256.
use vstd::prelude::*;

verus! {

/// The SHA-256 digest of a byte sequence.
pub uninterp spec fn sha256_of(data: Seq<u8>) -> Seq<u8>;

/// Relies on `sha2::Sha256::digest` (the `Digest` trait): the SHA-256 digest of `data`.
#[verifier::external_body]
fn sha256(data: &[u8]) -> (r: [u8; 32])
    ensures
        r@ == sha256_of(data@),
{
    let d = <sha2::Sha256 as sha2::Digest>::digest(data);
    let mut out = [0u8; 32];
    out.copy_from_slice(&d);
    out
}

/// The `n` least significant base-256 digits of `v`, least significant first.
pub open spec fn le_digits(v: nat, n: nat) -> Seq<u8>
    decreases n,
{
    if n == 0 {
        Seq::empty()
    } else {
        seq![(v % 256) as u8] + le_digits(v / 256, (n - 1) as nat)
    }
}

proof fn lemma_le_digits_len(v: nat, n: nat)
    ensures
        le_digits(v, n).len() == n,
    decreases n,
{
    if n > 0 {
        lemma_le_digits_len(v / 256, (n - 1) as nat);
    }
}

/// The eight bytes of `v` in little-endian order.
pub open spec fn le_bytes(v: u64) -> Seq<u8> {
    le_digits(v as nat, 8)
}

/// The eight bytes of `v` in big-endian order.
pub open spec fn be_bytes(v: u64) -> Seq<u8> {
    Seq::new(8, |i: int| le_bytes(v)[7 - i])
}

/// The unsigned integer whose big-endian bytes are `s`.
pub open spec fn be_value(s: Seq<u8>) -> nat
    decreases s.len(),
{
    if s.len() == 0 {
        0
    } else {
        be_value(s.drop_last()) * 256 + s.last() as nat
    }
}

/// The bytes that a point's commitment digests: its coordinates, little-endian, in order.
pub open spec fn commit_preimage(x: u64, y: u64, z: u64) -> Seq<u8> {
    le_bytes(x) + le_bytes(y) + le_bytes(z)
}

/// The commitment to a point.
pub open spec fn commit_hash(x: u64, y: u64, z: u64) -> Seq<u8> {
    sha256_of(commit_preimage(x, y, z))
}

/// The integer read from the first eight bytes of a digest, big-endian.
pub open spec fn scalar_of_digest(d: Seq<u8>) -> nat {
    be_value(d.take(8))
}

/// The pseudo-random scalar derived from a sum.
pub open spec fn derive_scalar(sum: u64) -> nat {
    scalar_of_digest(sha256_of(be_bytes(sum)))
}

fn push_le_bytes(out: &mut Vec<u8>, v: u64)
    ensures
        final(out)@ == old(out)@ + le_bytes(v),
{
    let ghost start = out@;
    let mut rest: u64 = v;
    let mut i: usize = 0;
    while i < 8
        invariant
            i <= 8,
            out@ + le_digits(rest as nat, (8 - i) as nat) == start + le_bytes(v),
        decreases 8 - i,
    {
        let ghost before = out@;
        out.push((rest % 256) as u8);
        proof {
            let tail = le_digits((rest / 256) as nat, (8 - i - 1) as nat);
            assert(le_digits(rest as nat, (8 - i) as nat) == seq![(rest % 256) as u8] + tail);
            assert(out@ + tail == before + (seq![(rest % 256) as u8] + tail));
        }
        rest = rest / 256;
        i = i + 1;
    }
    assert(le_digits(rest as nat, 0) == Seq::<u8>::empty());
    assert(out@ == out@ + Seq::<u8>::empty());
}

/// The SHA-256 digest of `x`, `y` and `z`, each as eight little-endian bytes, concatenated.
pub fn compute_hash(x: u64, y: u64, z: u64) -> (r: [u8; 32])
    ensures
        r@ == commit_hash(x, y, z),
{
    let mut data: Vec<u8> = Vec::new();
    push_le_bytes(&mut data, x);
    push_le_bytes(&mut data, y);
    push_le_bytes(&mut data, z);
    assert(data@ == commit_preimage(x, y, z));
    sha256(data.as_slice())
}

/// The value of `n` big-endian bytes is below `256^n`.
proof fn lemma_be_value_bound(s: Seq<u8>, bound: int)
    requires
        bound == pow256(s.len()),
    ensures
        be_value(s) < bound,
    decreases s.len(),
{
    if s.len() > 0 {
        lemma_be_value_bound(s.drop_last(), pow256((s.len() - 1) as nat) as int);
        let a = be_value(s.drop_last()) as int;
        let p = pow256((s.len() - 1) as nat) as int;
        let b = s.last() as int;
        assert(a * 256 + b < p * 256) by (nonlinear_arith)
            requires
                a < p,
                0 <= b < 256,
        ;
    }
}

/// `256^n`.
pub open spec fn pow256(n: nat) -> nat
    decreases n,
{
    if n == 0 {
        1
    } else {
        256 * pow256((n - 1) as nat)
    }
}

/// Reads the first eight bytes of a digest as a big-endian unsigned integer.
pub fn scalar_from_digest(d: &[u8; 32]) -> (r: u64)
    ensures
        r == scalar_of_digest(d@),
{
    let mut acc: u64 = 0;
    let mut i: usize = 0;
    proof {
        reveal_with_fuel(pow256, 8);
        assert(pow256(7) == 0x100_0000_0000_0000);
    }
    while i < 8
        invariant
            i <= 8,
            d@.len() == 32,
            acc == be_value(d@.take(i as int)),
            pow256(7) == 0x100_0000_0000_0000,
        decreases 8 - i,
    {
        proof {
            lemma_be_value_bound(d@.take(i as int), pow256(i as nat) as int);
            lemma_pow256_mono(i as nat, 7);
            assert(d@.take(i + 1).drop_last() == d@.take(i as int));
        }
        acc = acc * 256 + d[i] as u64;
        i = i + 1;
    }
    acc
}

proof fn lemma_pow256_mono(a: nat, b: nat)
    requires
        a <= b,
    ensures
        pow256(a) <= pow256(b),
    decreases b,
{
    if a < b {
        lemma_pow256_mono(a, (b - 1) as nat);
    }
}

/// Derives a pseudo-random scalar from `sum`: its big-endian bytes are hashed with SHA-256
/// and the first eight bytes of the digest are read as a big-endian integer.
pub fn hash_sum(sum: u64) -> (r: u64)
    ensures
        r == derive_scalar(sum),
{
    let mut le: Vec<u8> = Vec::new();
    push_le_bytes(&mut le, sum);
    assert(le@ == le_bytes(sum));
    proof {
        lemma_le_digits_len(sum as nat, 8);
    }
    let mut be: Vec<u8> = Vec::new();
    let mut i: usize = 0;
    while i < 8
        invariant
            i <= 8,
            le@ == le_bytes(sum),
            le@.len() == 8,
            be@ == be_bytes(sum).take(i as int),
        decreases 8 - i,
    {
        be.push(le[7 - i]);
        i = i + 1;
    }
    assert(be@ == be_bytes(sum));
    let digest = sha256(be.as_slice());
    scalar_from_digest(&digest)
}

} // verus!
