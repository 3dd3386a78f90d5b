//! Packing a signed coordinate pair into one ordered 64-bit key.
use vstd::prelude::*;

verus! {

/// 2^32, the weight of the high half of a key.
pub const HALF: u64 = 0x1_0000_0000;

/// The 32-bit two's-complement pattern of `v`, as a number.
pub open spec fn bits_of(v: i32) -> int {
    if v >= 0 {
        v as int
    } else {
        v + 0x1_0000_0000
    }
}

/// The signed value whose 32-bit two's-complement pattern is `b`.
pub open spec fn signed_of(b: int) -> int {
    if b < 0x8000_0000 {
        b
    } else {
        b - 0x1_0000_0000
    }
}

/// The key of `(x, y)`: the pattern of `x` in the high 32 bits, that of `y`
/// in the low 32 bits.
pub open spec fn key_spec(x: i32, y: i32) -> u64 {
    (bits_of(x) * 0x1_0000_0000 + bits_of(y)) as u64
}

/// The column that a key stands for.
pub open spec fn key_x(k: u64) -> i32 {
    signed_of(k as int / 0x1_0000_0000) as i32
}

/// The row that a key stands for.
pub open spec fn key_y(k: u64) -> i32 {
    signed_of(k as int % 0x1_0000_0000) as i32
}

fn bits32(v: i32) -> (r: u64)
    ensures
        r == bits_of(v),
        r < HALF,
{
    if v >= 0 {
        v as u64
    } else {
        (v as i64 + 0x1_0000_0000i64) as u64
    }
}

fn signed32(b: u64) -> (r: i32)
    requires
        b < HALF,
    ensures
        r == signed_of(b as int),
{
    if b < 0x8000_0000 {
        b as i32
    } else {
        (b as i64 - 0x1_0000_0000i64) as i32
    }
}

/// The key of `(x, y)`.
pub fn encode_coord(x: i32, y: i32) -> (r: u64)
    ensures
        r == key_spec(x, y),
{
    let hi = bits32(x);
    let lo = bits32(y);
    assert(hi * HALF + lo <= u64::MAX) by (nonlinear_arith)
        requires
            hi < HALF,
            lo < HALF,
    ;
    hi * HALF + lo
}

/// The coordinate pair that `k` stands for.
pub fn decode_coord(k: u64) -> (r: (i32, i32))
    ensures
        r.0 == key_x(k),
        r.1 == key_y(k),
{
    let hi = k / HALF;
    let lo = k % HALF;
    (signed32(hi), signed32(lo))
}

/// Decoding the key of a pair gives that pair back.
pub proof fn lemma_decode_encode(x: i32, y: i32)
    ensures
        key_x(key_spec(x, y)) == x,
        key_y(key_spec(x, y)) == y,
{
    let hi = bits_of(x);
    let lo = bits_of(y);
    assert(0 <= hi < 0x1_0000_0000 && 0 <= lo < 0x1_0000_0000);
    assert((hi * 0x1_0000_0000 + lo) / 0x1_0000_0000 == hi && (hi * 0x1_0000_0000 + lo)
        % 0x1_0000_0000 == lo) by (nonlinear_arith)
        requires
            0 <= hi < 0x1_0000_0000,
            0 <= lo < 0x1_0000_0000,
    ;
    assert(hi * 0x1_0000_0000 + lo <= u64::MAX) by (nonlinear_arith)
        requires
            0 <= hi < 0x1_0000_0000,
            0 <= lo < 0x1_0000_0000,
    ;
}

/// Every key is the key of the pair that it decodes to.
pub proof fn lemma_encode_decode(k: u64)
    ensures
        key_spec(key_x(k), key_y(k)) == k,
{
    let hi = k as int / 0x1_0000_0000;
    let lo = k as int % 0x1_0000_0000;
    assert(0 <= hi < 0x1_0000_0000 && 0 <= lo < 0x1_0000_0000 && hi * 0x1_0000_0000 + lo
        == k) by (nonlinear_arith)
        requires
            0 <= k <= u64::MAX,
            hi == k as int / 0x1_0000_0000,
            lo == k as int % 0x1_0000_0000,
    ;
}

/// Two pairs with the same key are the same pair.
pub proof fn lemma_key_injective(x1: i32, y1: i32, x2: i32, y2: i32)
    ensures
        key_spec(x1, y1) == key_spec(x2, y2) ==> x1 == x2 && y1 == y2,
{
    lemma_decode_encode(x1, y1);
    lemma_decode_encode(x2, y2);
}

} // verus!
