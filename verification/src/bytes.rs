//! Little- and big-endian integers read from and written to byte sequences.
use vstd::prelude::*;

verus! {

/// Errors of a binary read, after the kinds a structured binary reader reports.
#[derive(Debug, Clone, Copy, PartialEq, Eq, Structural)]
pub enum BinError {
    /// The input ended before a field could be read.
    UnexpectedEof,
    /// A magic value did not match.
    BadMagic,
    /// An enumeration field held a value that names no variant.
    NoVariantMatch,
    /// A field failed an assertion on its value.
    AssertFail,
}

/// The little-endian value of the two bytes at `at`.
pub open spec fn spec_u16_le(s: Seq<u8>, at: int) -> int {
    s[at] + 256 * s[at + 1]
}

/// The little-endian value of the four bytes at `at`.
pub open spec fn spec_u32_le(s: Seq<u8>, at: int) -> int {
    s[at] + 256 * (s[at + 1] + 256 * (s[at + 2] + 256 * s[at + 3]))
}

/// The little-endian value of the eight bytes at `at`.
pub open spec fn spec_u64_le(s: Seq<u8>, at: int) -> int {
    spec_u32_le(s, at) + 0x1_0000_0000 * spec_u32_le(s, at + 4)
}

/// The big-endian value of the four bytes at `at`.
pub open spec fn spec_u32_be(s: Seq<u8>, at: int) -> int {
    s[at + 3] + 256 * (s[at + 2] + 256 * (s[at + 1] + 256 * s[at]))
}

pub fn read_u16_le(s: &[u8], at: usize) -> (r: u16)
    requires
        at + 2 <= s@.len(),
    ensures
        r as int == spec_u16_le(s@, at as int),
{
    let _len = s.len();
    let lo = s[at] as u16;
    let hi = s[at + 1] as u16;
    hi * 256 + lo
}

pub fn read_u32_le(s: &[u8], at: usize) -> (r: u32)
    requires
        at + 4 <= s@.len(),
    ensures
        r as int == spec_u32_le(s@, at as int),
{
    let _len = s.len();
    let mut v: u32 = s[at + 3] as u32;
    v = v * 256 + s[at + 2] as u32;
    v = v * 256 + s[at + 1] as u32;
    v = v * 256 + s[at] as u32;
    v
}

pub fn read_u32_be(s: &[u8], at: usize) -> (r: u32)
    requires
        at + 4 <= s@.len(),
    ensures
        r as int == spec_u32_be(s@, at as int),
{
    let _len = s.len();
    let mut v: u32 = s[at] as u32;
    v = v * 256 + s[at + 1] as u32;
    v = v * 256 + s[at + 2] as u32;
    v = v * 256 + s[at + 3] as u32;
    v
}

pub fn read_u64_le(s: &[u8], at: usize) -> (r: u64)
    requires
        at + 8 <= s@.len(),
    ensures
        r as int == spec_u64_le(s@, at as int),
{
    let _len = s.len();
    let lo = read_u32_le(s, at) as u64;
    let hi = read_u32_le(s, at + 4) as u64;
    hi * 0x1_0000_0000 + lo
}

/// A copy of the bytes of `s` from `start` up to `end`.
pub fn copy_range(s: &[u8], start: usize, end: usize) -> (r: Vec<u8>)
    requires
        start <= end <= s@.len(),
    ensures
        r@ == s@.subrange(start as int, end as int),
{
    let mut r: Vec<u8> = Vec::new();
    let mut i: usize = start;
    while i < end
        invariant
            start <= i <= end <= s@.len(),
            r@ == s@.subrange(start as int, i as int),
        decreases end - i,
    {
        r.push(s[i]);
        assert(s@.subrange(start as int, i + 1) == s@.subrange(start as int, i as int).push(s@[i as int]));
        i = i + 1;
    }
    r
}

/// The bytes of `x` in little-endian order, `n` of them.
pub open spec fn spec_le_bytes(x: nat, n: nat) -> Seq<u8>
    decreases n,
{
    if n == 0 {
        seq![]
    } else {
        seq![(x % 256) as u8] + spec_le_bytes(x / 256, (n - 1) as nat)
    }
}

/// The bytes of `x` in big-endian order, `n` of them.
pub open spec fn spec_be_bytes(x: nat, n: nat) -> Seq<u8>
    decreases n,
{
    if n == 0 {
        seq![]
    } else {
        spec_be_bytes(x / 256, (n - 1) as nat).push((x % 256) as u8)
    }
}

/// The number that bytes give read in big-endian order, as
/// `u128::from_be_bytes` and its kin read them.
pub open spec fn spec_be_value(s: Seq<u8>) -> nat
    decreases s.len(),
{
    if s.len() == 0 {
        0
    } else {
        (spec_be_value(s.drop_last()) * 256 + s.last()) as nat
    }
}

/// The number of values `n` bytes can hold: 256 to the power `n`.
pub open spec fn byte_bound(n: nat) -> nat
    decreases n,
{
    if n == 0 {
        1
    } else {
        256 * byte_bound((n - 1) as nat)
    }
}

/// Reading the `n` big-endian bytes of `x` back gives `x`, when `x` fits in
/// `n` bytes.
pub proof fn lemma_be_bytes_roundtrip(x: nat, n: nat)
    requires
        x < byte_bound(n),
    ensures
        spec_be_value(spec_be_bytes(x, n)) == x,
    decreases n,
{
    if n > 0 {
        let b = byte_bound((n - 1) as nat);
        let q = x / 256;
        assert(q < b) by (nonlinear_arith)
            requires
                x < 256 * b,
                q == x / 256,
        ;
        lemma_be_bytes_roundtrip(q, (n - 1) as nat);
        let s = spec_be_bytes(x, n);
        assert(s.drop_last() == spec_be_bytes(q, (n - 1) as nat));
        assert(s.last() == (x % 256) as u8);
        assert(q * 256 + x % 256 == x) by (nonlinear_arith)
            requires
                q == x / 256,
        ;
    }
}

/// `x` in little-endian order, `n` bytes.
pub fn le_bytes(x: u64, n: usize) -> (r: Vec<u8>)
    requires
        n <= 8,
    ensures
        r@ == spec_le_bytes(x as nat, n as nat),
{
    let mut r: Vec<u8> = Vec::new();
    let mut rest: u64 = x;
    let mut i: usize = 0;
    while i < n
        invariant
            i <= n,
            r@ + spec_le_bytes(rest as nat, (n - i) as nat) == spec_le_bytes(x as nat, n as nat),
        decreases n - i,
    {
        let ghost before = r@;
        r.push((rest % 256) as u8);
        proof {
            assert(spec_le_bytes(rest as nat, (n - i) as nat) == seq![(rest % 256) as u8]
                + spec_le_bytes((rest / 256) as nat, (n - i - 1) as nat));
            assert(r@ == before + seq![(rest % 256) as u8]);
            assert(before + spec_le_bytes(rest as nat, (n - i) as nat) == r@ + spec_le_bytes(
                (rest / 256) as nat,
                (n - i - 1) as nat,
            ));
        }
        rest = rest / 256;
        i = i + 1;
    }
    proof {
        assert(spec_le_bytes(rest as nat, 0) == Seq::<u8>::empty());
        assert(r@ + Seq::<u8>::empty() == r@);
    }
    r
}

} // verus!
