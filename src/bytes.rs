//! Little-endian integer encoding: the layout of the integers in account
//! data and instruction data.

use vstd::prelude::*;

verus! {

/// Two hundred fifty-six to the power `n`.
pub open spec fn pow256(n: nat) -> nat
    decreases n,
{
    if n == 0 {
        1
    } else {
        256 * pow256((n - 1) as nat)
    }
}

/// The unsigned integer that `bytes` encode, least significant byte first.
pub open spec fn le_value(bytes: Seq<u8>) -> nat
    decreases bytes.len(),
{
    if bytes.len() == 0 {
        0
    } else {
        (bytes[0] + 256 * le_value(bytes.subrange(1, bytes.len() as int))) as nat
    }
}

/// The two's-complement `i128` that sixteen bytes encode, least significant first.
pub open spec fn le_i128(bytes: Seq<u8>) -> int {
    let u = le_value(bytes);
    if u >= 0x8000_0000_0000_0000_0000_0000_0000_0000 {
        u - 0x1_0000_0000_0000_0000_0000_0000_0000_0000
    } else {
        u as int
    }
}

pub proof fn lemma_pow256_monotone(a: nat, b: nat)
    requires
        a <= b,
    ensures
        1 <= pow256(a) <= pow256(b),
    decreases b,
{
    if a < b {
        lemma_pow256_monotone(a, (b - 1) as nat);
    } else if b > 0 {
        lemma_pow256_monotone((b - 1) as nat, (b - 1) as nat);
    }
}

/// What `n` bytes encode is below `256^n`.
pub proof fn lemma_le_value_bound(bytes: Seq<u8>)
    ensures
        le_value(bytes) < pow256(bytes.len()),
    decreases bytes.len(),
{
    if bytes.len() > 0 {
        let rest = bytes.subrange(1, bytes.len() as int);
        lemma_le_value_bound(rest);
        assert(le_value(bytes) < pow256(bytes.len())) by (nonlinear_arith)
            requires
                le_value(bytes) == bytes[0] + 256 * le_value(rest),
                bytes[0] < 256,
                le_value(rest) < pow256(rest.len()),
                pow256(bytes.len()) == 256 * pow256(rest.len()),
        ;
    }
}

/// Reads the unsigned integer that `len` bytes of `data` from `start`
/// encode, least significant byte first.
pub fn read_le(data: &[u8], start: usize, len: usize) -> (r: u128)
    requires
        start + len <= data@.len(),
        len <= 16,
    ensures
        r == le_value(data@.subrange(start as int, start + len)),
{
    proof {
        reveal_with_fuel(pow256, 17);
        assert(pow256(16) == 0x1_0000_0000_0000_0000_0000_0000_0000_0000);
        assert(pow256(15) == 1_329_227_995_784_915_872_903_807_060_280_344_576);
        assert(data@.subrange(start + len, start + len).len() == 0);
    }
    let size = data.len();
    let end = start + len;
    let mut acc: u128 = 0;
    let mut k: usize = len;
    while k > 0
        invariant
            k <= len <= 16,
            end == start + len,
            end <= data@.len(),
            acc == le_value(data@.subrange(start + k, end as int)),
            acc < pow256((len - k) as nat),
            pow256(16) == 0x1_0000_0000_0000_0000_0000_0000_0000_0000,
            pow256(15) == 1_329_227_995_784_915_872_903_807_060_280_344_576,
        decreases k,
    {
        let b = data[start + k - 1];
        proof {
            let s = data@.subrange(start + k - 1, end as int);
            assert(s.subrange(1, s.len() as int) =~= data@.subrange(start + k, end as int));
            assert(s[0] == b);
            lemma_pow256_monotone((len - k) as nat, 15);
            assert(pow256((len - k + 1) as nat) == 256 * pow256((len - k) as nat));
        }
        acc = acc * 256 + b as u128;
        k = k - 1;
    }
    acc
}

/// The `n` bytes that encode `x` modulo `256^n`, least significant first.
pub open spec fn le_bytes(x: nat, n: nat) -> Seq<u8>
    decreases n,
{
    if n == 0 {
        Seq::empty()
    } else {
        seq![(x % 256) as u8] + le_bytes(x / 256, (n - 1) as nat)
    }
}

pub proof fn lemma_le_bytes_len(x: nat, n: nat)
    ensures
        le_bytes(x, n).len() == n,
    decreases n,
{
    if n > 0 {
        lemma_le_bytes_len(x / 256, (n - 1) as nat);
    }
}

/// Encoding a number that fits in `n` bytes and reading it back gives the number.
pub proof fn lemma_le_round_trip(x: nat, n: nat)
    requires
        x < pow256(n),
    ensures
        le_bytes(x, n).len() == n,
        le_value(le_bytes(x, n)) == x,
    decreases n,
{
    if n > 0 {
        let q = x / 256;
        assert(q < pow256((n - 1) as nat)) by (nonlinear_arith)
            requires
                x < 256 * pow256((n - 1) as nat),
                q == x / 256,
        ;
        lemma_le_round_trip(q, (n - 1) as nat);
        let s = le_bytes(x, n);
        assert(s.subrange(1, s.len() as int) =~= le_bytes(q, (n - 1) as nat));
    } else {
        assert(x == 0);
    }
}

/// Appends the `len` bytes that encode `value`, least significant first.
pub fn push_le(out: &mut Vec<u8>, value: u128, len: usize)
    ensures
        final(out)@ == old(out)@ + le_bytes(value as nat, len as nat),
{
    let mut v = value;
    let mut k: usize = 0;
    while k < len
        invariant
            k <= len,
            old(out)@ + le_bytes(value as nat, len as nat) == out@ + le_bytes(v as nat, (len - k) as nat),
        decreases len - k,
    {
        let ghost before = out@;
        proof {
            assert(le_bytes(v as nat, (len - k) as nat) == seq![(v % 256) as u8] + le_bytes(
                (v / 256) as nat,
                (len - k - 1) as nat,
            ));
        }
        out.push((v % 256) as u8);
        proof {
            assert(before + (seq![(v % 256) as u8] + le_bytes((v / 256) as nat, (len - k - 1) as nat))
                =~= out@ + le_bytes((v / 256) as nat, (len - k - 1) as nat));
        }
        v = v / 256;
        k = k + 1;
    }
    assert(out@ + le_bytes(v as nat, 0) =~= out@);
}

/// Appends every byte of `bytes`.
pub fn push_all(out: &mut Vec<u8>, bytes: &[u8])
    ensures
        final(out)@ == old(out)@ + bytes@,
{
    let mut k: usize = 0;
    while k < bytes.len()
        invariant
            k <= bytes@.len(),
            out@ == old(out)@ + bytes@.subrange(0, k as int),
        decreases bytes@.len() - k,
    {
        out.push(bytes[k]);
        proof {
            assert(old(out)@ + bytes@.subrange(0, k + 1) =~= out@);
        }
        k = k + 1;
    }
    assert(bytes@.subrange(0, bytes@.len() as int) =~= bytes@);
}

/// The 32 bytes of `data` from `start`, as an array.
pub fn read_array32(data: &[u8], start: usize) -> (r: [u8; 32])
    requires
        start + 32 <= data@.len(),
    ensures
        r@ == data@.subrange(start as int, start + 32),
{
    let size = data.len();
    let mut r = [0u8; 32];
    let mut k: usize = 0;
    while k < 32
        invariant
            k <= 32,
            size == data@.len(),
            start + 32 <= data@.len(),
            r@.len() == 32,
            forall|j: int| 0 <= j < k ==> r@[j] == data@[start + j],
        decreases 32 - k,
    {
        r[k] = data[start + k];
        k = k + 1;
    }
    assert(r@ =~= data@.subrange(start as int, start + 32));
    r
}

} // verus!
