use vstd::prelude::*;

use crate::square::{file_of, index_of, rank_of, Square};

verus! {

/// Whether bit `k` of `w` is set.
pub open spec fn bit(w: u64, k: int) -> bool {
    0 <= k < 64 && (w >> (k as u64)) & 1u64 == 1u64
}

/// The squares of the board, as indices.
pub open spec fn all_squares() -> Set<int> {
    Set::new(|i: int| 1 <= i <= 81)
}

/// The squares of a set that are reflected through the centre of the board.
pub open spec fn flip_set(s: Set<int>) -> Set<int> {
    Set::new(|i: int| 1 <= i <= 81 && s.contains(82 - i))
}

proof fn lemma_bit_zero(k: u64)
    ensures
        (0u64 >> k) & 1u64 == 0u64,
        0u64 >> 63u64 == 0,
        0u64 >> 18u64 == 0,
{
    assert((0u64 >> k) & 1u64 == 0u64 && 0u64 >> 63u64 == 0 && 0u64 >> 18u64 == 0) by (bit_vector);
}

proof fn lemma_bit_single(a: u64, k: u64)
    requires
        a < 64,
        k < 64,
    ensures
        ((1u64 << a) >> k) & 1u64 == 1u64 <==> a == k,
        a < 63 ==> (1u64 << a) >> 63u64 == 0,
        a < 18 ==> (1u64 << a) >> 18u64 == 0,
{
    assert(((1u64 << a) >> k) & 1u64 == 1u64 <==> a == k) by (bit_vector)
        requires
            a < 64,
            k < 64,
    ;
    assert(a < 63 ==> (1u64 << a) >> 63u64 == 0) by (bit_vector);
    assert(a < 18 ==> (1u64 << a) >> 18u64 == 0) by (bit_vector);
}

proof fn lemma_bit_ops(a: u64, b: u64, k: u64)
    requires
        k < 64,
    ensures
        ((a | b) >> k) & 1u64 == 1u64 <==> ((a >> k) & 1u64 == 1u64 || (b >> k) & 1u64 == 1u64),
        ((a & b) >> k) & 1u64 == 1u64 <==> ((a >> k) & 1u64 == 1u64 && (b >> k) & 1u64 == 1u64),
        ((a ^ b) >> k) & 1u64 == 1u64 <==> ((a >> k) & 1u64 == 1u64) != ((b >> k) & 1u64
            == 1u64),
        ((!a & b) >> k) & 1u64 == 1u64 <==> ((a >> k) & 1u64 != 1u64 && (b >> k) & 1u64 == 1u64),
{
    assert(((a | b) >> k) & 1u64 == 1u64 <==> ((a >> k) & 1u64 == 1u64 || (b >> k) & 1u64
        == 1u64)) by (bit_vector);
    assert(((a & b) >> k) & 1u64 == 1u64 <==> ((a >> k) & 1u64 == 1u64 && (b >> k) & 1u64
        == 1u64)) by (bit_vector);
    assert(((a ^ b) >> k) & 1u64 == 1u64 <==> ((a >> k) & 1u64 == 1u64) != ((b >> k) & 1u64
        == 1u64)) by (bit_vector);
    assert(((!a & b) >> k) & 1u64 == 1u64 <==> ((a >> k) & 1u64 != 1u64 && (b >> k) & 1u64
        == 1u64)) by (bit_vector);
}

proof fn lemma_high_clear(a: u64, b: u64, n: u64)
    requires
        n < 64,
        a >> n == 0,
    ensures
        b >> n == 0 ==> (a | b) >> n == 0 && (a ^ b) >> n == 0,
        (a & b) >> n == 0,
        (b & a) >> n == 0,
        (!b & a) >> n == 0,
        forall|k: u64| n <= k < 64 ==> #[trigger] ((a >> k) & 1u64) == 0u64,
{
    assert(b >> n == 0 ==> (a | b) >> n == 0 && (a ^ b) >> n == 0) by (bit_vector)
        requires
            a >> n == 0,
    ;
    assert((a & b) >> n == 0 && (b & a) >> n == 0 && (!b & a) >> n == 0) by (bit_vector)
        requires
            a >> n == 0,
    ;
    assert forall|k: u64| n <= k < 64 implies #[trigger] ((a >> k) & 1u64) == 0u64 by {
        assert(n <= k < 64 && a >> n == 0 ==> (a >> k) & 1u64 == 0u64) by (bit_vector);
    }
}

proof fn lemma_clear_lowest(w: u64, t: u64, k: u64)
    requires
        t < 64,
        k < 64,
        (w >> t) & 1u64 == 1u64,
        w << vstd::prelude::sub(64u64, t) == 0,
    ensures
        ((w & sub_one(w)) >> k) & 1u64 == 1u64 <==> ((w >> k) & 1u64 == 1u64 && k != t),
{
    assert(((w & sub_one(w)) >> k) & 1u64 == 1u64 <==> ((w >> k) & 1u64 == 1u64 && k != t))
        by (bit_vector)
        requires
            t < 64,
            k < 64,
            (w >> t) & 1u64 == 1u64,
            w << vstd::prelude::sub(64u64, t) == 0,
    ;
}

/// `w - 1` for a nonzero word.
spec fn sub_one(w: u64) -> u64 {
    (w - 1) as u64
}

/// The positions of the set bits of `w`.
pub open spec fn bits_of(w: u64) -> Set<int> {
    Set::new(|k: int| bit(w, k))
}

/// Reverses the bit order of a word.
///
/// Relies on `u64::reverse_bits`: bit `k` of the result is bit `63 - k` of `x`.
#[verifier::external_body]
fn reverse_bits(x: u64) -> (r: u64)
    ensures
        forall|k: u64| k < 64 ==> #[trigger] ((r >> k) & 1u64) == (x >> ((63 - k) as u64)) & 1u64,
{
    x.reverse_bits()
}

/// Counts the set bits of a word.
///
/// Relies on `u64::count_ones`: the number of ones in the binary representation of `x`.
#[verifier::external_body]
fn count_ones(x: u64) -> (r: u32)
    ensures
        r == bits_of(x).len(),
{
    x.count_ones()
}

proof fn lemma_bits_of_finite(w: u64)
    ensures
        bits_of(w).finite(),
        bits_of(w).subset_of(Set::new(|k: int| 0 <= k < 64)),
{
    vstd::set_lib::lemma_int_range(0, 64);
    assert(Set::new(|k: int| 0 <= k < 64) =~= vstd::set_lib::set_int_range(0, 64));
    vstd::set_lib::lemma_len_subset(bits_of(w), Set::new(|k: int| 0 <= k < 64));
}

/// A word whose bits from `n` upwards are clear is below `2^n`.
proof fn lemma_high_bits_clear(x: u64, n: u64)
    requires
        n < 64,
        forall|k: u64| n <= k < 64 ==> #[trigger] ((x >> k) & 1u64) == 0u64,
    ensures
        x >> n == 0,
{
    let y = x >> n;
    vstd::std_specs::bits::axiom_u64_trailing_zeros(y);
    if y != 0 {
        let t = vstd::std_specs::bits::u64_trailing_zeros(y) as u64;
        assert(t < 64 && (y >> t) & 1u64 == 1u64);
        assert((y >> t) & 1u64 == 1u64 && y == x >> n && n < 64 && t < 64 ==> n + t < 64 && (x
            >> (n + t) as u64) & 1u64 == 1u64) by (bit_vector);
        assert(((x >> (n + t) as u64) & 1u64) == 0u64);
    }
}

proof fn lemma_flip_bits(lo: u64, hi: u64, b: u64)
    requires
        lo >> 63u64 == 0,
        hi >> 18u64 == 0,
        b < 64,
    ensures
        1 <= b <= 45 ==> (((((lo >> 17u64) | (hi << 46u64)) & !1u64) >> b) & 1u64) == (lo >> (b
            + 17) as u64) & 1u64,
        46 <= b ==> (((((lo >> 17u64) | (hi << 46u64)) & !1u64) >> b) & 1u64) == (hi >> (b
            - 46) as u64) & 1u64,
        b == 0 ==> (((((lo >> 17u64) | (hi << 46u64)) & !1u64) >> b) & 1u64) == 0,
        46 <= b ==> ((lo << 46u64) >> b) & 1u64 == (lo >> (b - 46) as u64) & 1u64,
        b < 46 ==> ((lo << 46u64) >> b) & 1u64 == 0,
{
    assert(1 <= b <= 45 ==> (((((lo >> 17u64) | (hi << 46u64)) & !1u64) >> b) & 1u64) == (lo >> (b
        + 17) as u64) & 1u64) by (bit_vector)
        requires
            lo >> 63u64 == 0,
            hi >> 18u64 == 0,
            b < 64,
    ;
    assert(46 <= b ==> (((((lo >> 17u64) | (hi << 46u64)) & !1u64) >> b) & 1u64) == (hi >> (b
        - 46) as u64) & 1u64) by (bit_vector)
        requires
            lo >> 63u64 == 0,
            hi >> 18u64 == 0,
            b < 64,
    ;
    assert(b == 0 ==> (((((lo >> 17u64) | (hi << 46u64)) & !1u64) >> b) & 1u64) == 0)
        by (bit_vector);
    assert(46 <= b ==> ((lo << 46u64) >> b) & 1u64 == (lo >> (b - 46) as u64) & 1u64)
        by (bit_vector)
        requires
            b < 64,
    ;
    assert(b < 46 ==> ((lo << 46u64) >> b) & 1u64 == 0) by (bit_vector);
}

proof fn lemma_shift_down_bits(lo: u64, hi: u64, d: u64, f: u64, r: u64)
    requires
        d <= 9,
        f < 7,
        r < 9,
        hi >> 18u64 == 0,
    ensures
        ({
            let mask = (0x8040_2010_0804_0200u64 - (0x8040_2010_0804_0200u64 >> (9 - d) as u64)) as u64;
            &&& (((lo << d) & mask) >> (9 * f + r) as u64) & 1u64 == 1u64 <==> (r >= d && (lo >> (9 * f
                + r - d) as u64) & 1u64 == 1u64)
            &&& (((lo << d) & mask) >> 63u64) == 0
            &&& f < 2 ==> ((((((hi as u32) << (d as u32)) & (mask as u32)) as u64) >> (9 * f
                + r) as u64) & 1u64 == 1u64 <==> (r >= d && (hi >> (9 * f + r - d) as u64) & 1u64
                == 1u64))
            &&& ((((hi as u32) << (d as u32)) & (mask as u32)) as u64) >> 18u64 == 0
            &&& 0x8040_2010_0804_0200u64 >> (9 - d) as u64 <= 0x8040_2010_0804_0200u64
        }),
{
    assert({
        let mask = (0x8040_2010_0804_0200u64 - (0x8040_2010_0804_0200u64 >> (9 - d) as u64)) as u64;
        &&& (((lo << d) & mask) >> (9 * f + r) as u64) & 1u64 == 1u64 <==> (r >= d && (lo >> (9 * f
            + r - d) as u64) & 1u64 == 1u64)
        &&& (((lo << d) & mask) >> 63u64) == 0
        &&& f < 2 ==> ((((((hi as u32) << (d as u32)) & (mask as u32)) as u64) >> (9 * f
            + r) as u64) & 1u64 == 1u64 <==> (r >= d && (hi >> (9 * f + r - d) as u64) & 1u64
            == 1u64))
        &&& ((((hi as u32) << (d as u32)) & (mask as u32)) as u64) >> 18u64 == 0
        &&& 0x8040_2010_0804_0200u64 >> (9 - d) as u64 <= 0x8040_2010_0804_0200u64
    }) by (bit_vector)
        requires
            d <= 9,
            f < 7,
            r < 9,
            hi >> 18u64 == 0,
    ;
}

proof fn lemma_shift_up_bits(lo: u64, hi: u64, d: u64, f: u64, r: u64)
    requires
        d <= 9,
        f < 7,
        r < 9,
        lo >> 63u64 == 0,
        hi >> 18u64 == 0,
    ensures
        ({
            let mask = ((0x40_2010_0804_0201u64 << (9 - d) as u64) - 0x40_2010_0804_0201u64) as u64;
            &&& (((lo >> d) & mask) >> (9 * f + r) as u64) & 1u64 == 1u64 <==> (r + d < 9 && (lo >> (9
                * f + r + d) as u64) & 1u64 == 1u64)
            &&& (((lo >> d) & mask) >> 63u64) == 0
            &&& f < 2 ==> ((((((hi as u32) >> (d as u32)) & (mask as u32)) as u64) >> (9 * f
                + r) as u64) & 1u64 == 1u64 <==> (r + d < 9 && (hi >> (9 * f + r + d) as u64)
                & 1u64 == 1u64))
            &&& ((((hi as u32) >> (d as u32)) & (mask as u32)) as u64) >> 18u64 == 0
            &&& 0x40_2010_0804_0201u64 <= 0x40_2010_0804_0201u64 << (9 - d) as u64
        }),
{
    assert({
        let mask = ((0x40_2010_0804_0201u64 << (9 - d) as u64) - 0x40_2010_0804_0201u64) as u64;
        &&& (((lo >> d) & mask) >> (9 * f + r) as u64) & 1u64 == 1u64 <==> (r + d < 9 && (lo >> (9
            * f + r + d) as u64) & 1u64 == 1u64)
        &&& (((lo >> d) & mask) >> 63u64) == 0
        &&& f < 2 ==> ((((((hi as u32) >> (d as u32)) & (mask as u32)) as u64) >> (9 * f
            + r) as u64) & 1u64 == 1u64 <==> (r + d < 9 && (hi >> (9 * f + r + d) as u64)
            & 1u64 == 1u64))
        &&& ((((hi as u32) >> (d as u32)) & (mask as u32)) as u64) >> 18u64 == 0
        &&& 0x40_2010_0804_0201u64 <= 0x40_2010_0804_0201u64 << (9 - d) as u64
    }) by (bit_vector)
        requires
            d <= 9,
            f < 7,
            r < 9,
            lo >> 63u64 == 0,
            hi >> 18u64 == 0,
    ;
}

proof fn lemma_shift_left_bits(lo: u64, hi: u64, d: u64, f: u64, g: u64, r: u64)
    requires
        d <= 9,
        f < 7,
        g < 2,
        r < 9,
        lo >> 63u64 == 0,
        hi >> 18u64 == 0,
    ensures
        d <= 7 ==> ((((lo << (9 * d) as u64) & 0x7fff_ffff_ffff_ffffu64) >> (9 * f + r) as u64)
            & 1u64 == 1u64 <==> (f >= d && (lo >> (9 * f + r - 9 * d) as u64) & 1u64 == 1u64)),
        d <= 1 ==> (((((hi << (9 * d) as u64) | (lo >> (63 - 9 * d) as u64)) & 0x3_ffffu64) >> (9
            * g + r) as u64) & 1u64 == 1u64 <==> if g >= d {
            (hi >> (9 * g + r - 9 * d) as u64) & 1u64 == 1u64
        } else {
            (lo >> (63 + 9 * g + r - 9 * d) as u64) & 1u64 == 1u64
        }),
        2 <= d <= 7 ==> ((((lo >> (63 - 9 * d) as u64) & 0x3_ffffu64) >> (9 * g + r) as u64) & 1u64
            == 1u64 <==> (lo >> (63 + 9 * g + r - 9 * d) as u64) & 1u64 == 1u64),
        8 <= d ==> ((((lo << (9 * d - 63) as u64) & 0x3_ffffu64) >> (9 * g + r) as u64) & 1u64
            == 1u64 <==> (9 * g + r + 63 >= 9 * d && (lo >> (9 * g + r + 63 - 9 * d) as u64) & 1u64
            == 1u64)),
{
    assert(d <= 7 ==> ((((lo << (9 * d) as u64) & 0x7fff_ffff_ffff_ffffu64) >> (9 * f + r) as u64)
        & 1u64 == 1u64 <==> (f >= d && (lo >> (9 * f + r - 9 * d) as u64) & 1u64 == 1u64)))
        by (bit_vector)
        requires
            d <= 9,
            f < 7,
            r < 9,
    ;
    assert(d <= 1 ==> (((((hi << (9 * d) as u64) | (lo >> (63 - 9 * d) as u64)) & 0x3_ffffu64) >> (9
        * g + r) as u64) & 1u64 == 1u64 <==> if g >= d {
        (hi >> (9 * g + r - 9 * d) as u64) & 1u64 == 1u64
    } else {
        (lo >> (63 + 9 * g + r - 9 * d) as u64) & 1u64 == 1u64
    })) by (bit_vector)
        requires
            d <= 9,
            g < 2,
            r < 9,
            lo >> 63u64 == 0,
    ;
    assert(2 <= d <= 7 ==> ((((lo >> (63 - 9 * d) as u64) & 0x3_ffffu64) >> (9 * g + r) as u64)
        & 1u64 == 1u64 <==> (lo >> (63 + 9 * g + r - 9 * d) as u64) & 1u64 == 1u64))
        by (bit_vector)
        requires
            d <= 9,
            g < 2,
            r < 9,
    ;
    assert(8 <= d ==> ((((lo << (9 * d - 63) as u64) & 0x3_ffffu64) >> (9 * g + r) as u64) & 1u64
        == 1u64 <==> (9 * g + r + 63 >= 9 * d && (lo >> (9 * g + r + 63 - 9 * d) as u64) & 1u64
        == 1u64))) by (bit_vector)
        requires
            d <= 9,
            g < 2,
            r < 9,
    ;
}

proof fn lemma_shift_right_bits(lo: u64, hi: u64, d: u64, f: u64, g: u64, r: u64)
    requires
        d <= 9,
        f < 7,
        g < 2,
        r < 9,
        lo >> 63u64 == 0,
        hi >> 18u64 == 0,
    ensures
        d <= 1 ==> (((((lo >> (9 * d) as u64) | (hi << (63 - 9 * d) as u64))
            & 0x7fff_ffff_ffff_ffffu64) >> (9 * f + r) as u64) & 1u64 == 1u64 <==> if f + d <= 6 {
            (lo >> (9 * (f + d) + r) as u64) & 1u64 == 1u64
        } else if f + d <= 8 {
            (hi >> (9 * (f + d) + r - 63) as u64) & 1u64 == 1u64
        } else {
            false
        }),
        d <= 1 ==> (((hi >> (9 * d) as u64) >> (9 * g + r) as u64) & 1u64 == 1u64 <==> (g + d <= 1
            && (hi >> (9 * (g + d) + r) as u64) & 1u64 == 1u64)),
        d <= 1 ==> (hi >> (9 * d) as u64) >> 18u64 == 0,
        2 <= d <= 7 ==> ((((lo >> (9 * d) as u64) | (hi << (63 - 9 * d) as u64)) >> (9 * f
            + r) as u64) & 1u64 == 1u64 <==> if f + d <= 6 {
            (lo >> (9 * (f + d) + r) as u64) & 1u64 == 1u64
        } else if f + d <= 8 {
            (hi >> (9 * (f + d) + r - 63) as u64) & 1u64 == 1u64
        } else {
            false
        }),
        2 <= d <= 7 ==> ((lo >> (9 * d) as u64) | (hi << (63 - 9 * d) as u64)) >> 63u64 == 0,
        8 <= d ==> (((hi >> (9 * d - 63) as u64) >> (9 * f + r) as u64) & 1u64 == 1u64 <==> (f + d
            <= 8 && (hi >> (9 * (f + d) + r - 63) as u64) & 1u64 == 1u64)),
        8 <= d ==> (hi >> (9 * d - 63) as u64) >> 63u64 == 0,
{
    assert(d <= 1 ==> (((((lo >> (9 * d) as u64) | (hi << (63 - 9 * d) as u64))
        & 0x7fff_ffff_ffff_ffffu64) >> (9 * f + r) as u64) & 1u64 == 1u64 <==> if f + d <= 6 {
        (lo >> (9 * (f + d) + r) as u64) & 1u64 == 1u64
    } else if f + d <= 8 {
        (hi >> (9 * (f + d) + r - 63) as u64) & 1u64 == 1u64
    } else {
        false
    })) by (bit_vector)
        requires
            d <= 9,
            f < 7,
            r < 9,
            lo >> 63u64 == 0,
    ;
    assert((d <= 1 ==> (((hi >> (9 * d) as u64) >> (9 * g + r) as u64) & 1u64 == 1u64 <==> (g + d
        <= 1 && (hi >> (9 * (g + d) + r) as u64) & 1u64 == 1u64))) && (d <= 1 ==> (hi >> (9
        * d) as u64) >> 18u64 == 0)) by (bit_vector)
        requires
            d <= 9,
            g < 2,
            r < 9,
            hi >> 18u64 == 0,
    ;
    assert((2 <= d <= 7 ==> ((((lo >> (9 * d) as u64) | (hi << (63 - 9 * d) as u64)) >> (9 * f
        + r) as u64) & 1u64 == 1u64 <==> if f + d <= 6 {
        (lo >> (9 * (f + d) + r) as u64) & 1u64 == 1u64
    } else if f + d <= 8 {
        (hi >> (9 * (f + d) + r - 63) as u64) & 1u64 == 1u64
    } else {
        false
    })) && (2 <= d <= 7 ==> ((lo >> (9 * d) as u64) | (hi << (63 - 9 * d) as u64)) >> 63u64
        == 0)) by (bit_vector)
        requires
            d <= 9,
            f < 7,
            r < 9,
            lo >> 63u64 == 0,
            hi >> 18u64 == 0,
    ;
    assert((8 <= d ==> (((hi >> (9 * d - 63) as u64) >> (9 * f + r) as u64) & 1u64 == 1u64 <==> (f
        + d <= 8 && (hi >> (9 * (f + d) + r - 63) as u64) & 1u64 == 1u64))) && (8 <= d ==> (hi >> (9 * d
        - 63) as u64) >> 63u64 == 0)) by (bit_vector)
        requires
            d <= 9,
            f < 7,
            r < 9,
            hi >> 18u64 == 0,
    ;
}

/// The word `x` with its eight bytes in reverse order.
pub open spec fn byte_swap(x: u64) -> u64 {
    ((x & 0xffu64) << 56u64) | ((x & 0xff00u64) << 40u64) | ((x & 0xff_0000u64) << 24u64) | ((x
        & 0xff00_0000u64) << 8u64) | ((x >> 8u64) & 0xff00_0000u64) | ((x >> 24u64) & 0xff_0000u64)
        | ((x >> 40u64) & 0xff00u64) | (x >> 56u64)
}

/// Reverses the byte order of a word.
fn swap_bytes(x: u64) -> (r: u64)
    ensures
        r == byte_swap(x),
{
    ((x & 0xff) << 56) | ((x & 0xff00) << 40) | ((x & 0xff_0000) << 24) | ((x & 0xff00_0000) << 8)
        | ((x >> 8) & 0xff00_0000) | ((x >> 24) & 0xff_0000) | ((x >> 40) & 0xff00) | (x >> 56)
}

/// Swapping the bytes of a word twice gives it back, and swapping commutes with the
/// bitwise operations.
pub proof fn lemma_byte_swap(a: u64, b: u64)
    ensures
        byte_swap(byte_swap(a)) == a,
        byte_swap(a | b) == byte_swap(a) | byte_swap(b),
        byte_swap(a & b) == byte_swap(a) & byte_swap(b),
        byte_swap(a ^ b) == byte_swap(a) ^ byte_swap(b),
        byte_swap(!a & b) == !byte_swap(a) & byte_swap(b),
{
    assert(byte_swap(byte_swap(a)) == a) by (bit_vector);
    assert(byte_swap(a | b) == byte_swap(a) | byte_swap(b) && byte_swap(a & b) == byte_swap(a)
        & byte_swap(b) && byte_swap(a ^ b) == byte_swap(a) ^ byte_swap(b) && byte_swap(!a & b)
        == !byte_swap(a) & byte_swap(b)) by (bit_vector);
}

/// The 128-bit number whose low word is `lo` and whose high word is `hi`.
pub open spec fn join_words(lo: u64, hi: u64) -> u128 {
    ((hi as u128) << 64u128) | (lo as u128)
}

proof fn lemma_join_words(a: u128, lo: u64, hi: u64)
    ensures
        a == join_words(a as u64, (a >> 64u128) as u64),
        (join_words(lo, hi) as u64) == lo,
        ((join_words(lo, hi) >> 64u128) as u64) == hi,
{
    assert(a == ((((a >> 64u128) as u64) as u128) << 64u128) | ((a as u64) as u128)
        && (((((hi as u128) << 64u128) | (lo as u128)) as u64) == lo) && ((((((hi as u128)
        << 64u128) | (lo as u128)) >> 64u128) as u64) == hi)) by (bit_vector);
}

/// Whether bit `k` of `pattern` is set.
pub open spec fn pattern_bit(pattern: u16, k: int) -> bool {
    0 <= k < 16 && ((pattern as u64) >> (k as u64)) & 1u64 == 1u64
}

proof fn lemma_get_file_bits(w: u64, s: u64, k: u64)
    requires
        s < 64,
        k < 9,
    ensures
        ({
            let r = ((w >> s) as u16) & 0x1ffu16;
            &&& ((r as u64) >> k) & 1u64 == (w >> (s + k) as u64) & 1u64
            &&& r < 512
        }),
{
    assert({
        let r = ((w >> s) as u16) & 0x1ffu16;
        &&& ((r as u64) >> k) & 1u64 == (w >> (s + k) as u64) & 1u64
        &&& r < 512
    }) by (bit_vector)
        requires
            s < 64,
            k < 9,
    ;
}

proof fn lemma_file_bits(p: u64, s: u64, f: u64, r: u64)
    requires
        p < 512,
        s <= 6,
        f < 7,
        r < 9,
    ensures
        ((p << (9 * s) as u64) >> (9 * f + r) as u64) & 1u64 == 1u64 <==> (f == s && (p >> r)
            & 1u64 == 1u64),
        (p << (9 * s) as u64) >> 63u64 == 0,
        s <= 1 ==> (p << (9 * s) as u64) >> 18u64 == 0,
        (((p << (9 * s) as u64) >> (9 * s) as u64) as u16) & 0x1ffu16 == p as u16,
{
    assert(((p << (9 * s) as u64) >> (9 * f + r) as u64) & 1u64 == 1u64 <==> (f == s && (p >> r)
        & 1u64 == 1u64)) by (bit_vector)
        requires
            p < 512,
            s <= 6,
            f < 7,
            r < 9,
    ;
    assert((p << (9 * s) as u64) >> 63u64 == 0 && (s <= 1 ==> (p << (9 * s) as u64) >> 18u64
        == 0) && (((p << (9 * s) as u64) >> (9 * s) as u64) as u16) & 0x1ffu16 == p as u16)
        by (bit_vector)
        requires
            p < 512,
            s <= 6,
    ;
}

/// The squares of `s` moved `d` ranks down (towards rank 9), those leaving the board
/// dropped.
pub open spec fn shift_down_set(s: Set<int>, d: int) -> Set<int> {
    Set::new(|i: int| 1 <= i <= 81 && rank_of(i) > d && s.contains(i - d))
}

/// The squares of `s` moved `d` ranks up (towards rank 1), those leaving the board
/// dropped.
pub open spec fn shift_up_set(s: Set<int>, d: int) -> Set<int> {
    Set::new(|i: int| 1 <= i <= 81 && rank_of(i) + d <= 9 && s.contains(i + d))
}

/// The squares of `s` moved `d` files left (towards file 9), those leaving the board
/// dropped.
pub open spec fn shift_left_set(s: Set<int>, d: int) -> Set<int> {
    Set::new(|i: int| 1 <= i <= 81 && file_of(i) > d && s.contains(i - 9 * d))
}

/// The squares of `s` moved `d` files right (towards file 1), those leaving the board
/// dropped.
pub open spec fn shift_right_set(s: Set<int>, d: int) -> Set<int> {
    Set::new(|i: int| 1 <= i <= 81 && file_of(i) + d <= 9 && s.contains(i + 9 * d))
}

/// A single-square set holds its square and no other.
pub proof fn lemma_single_contains(s: int, t: int)
    requires
        1 <= s <= 81,
        1 <= t <= 81,
    ensures
        set![s].contains(s),
        set![s].contains(t) <==> s == t,
{
}

/// Flipping a set of squares twice gives it back.
pub proof fn lemma_flip_involutive(s: Set<int>)
    requires
        s.subset_of(all_squares()),
    ensures
        flip_set(flip_set(s)) == s,
{
    assert(flip_set(flip_set(s)) =~= s);
}

/// The flip of a single square is the single flipped square.
pub proof fn lemma_flip_single(i: int)
    requires
        1 <= i <= 81,
    ensures
        flip_set(set![i]) == set![82 - i],
{
    assert(flip_set(set![i]) =~= set![82 - i]);
}

/// Each `sets[k + 1]` is `sets[k]` without `popped[k]`, a member of `sets[k]`: what
/// [`Bitboard::pop`] does to a nonempty set.
pub open spec fn is_pop_chain(sets: Seq<Set<int>>, popped: Seq<int>) -> bool {
    &&& sets.len() == popped.len() + 1
    &&& forall|k: int|
        0 <= k < popped.len() ==> #[trigger] sets[k].contains(popped[k]) && sets[k + 1]
            == sets[k].remove(popped[k])
}

/// Popping, one member at a time, a set of `n` squares `n` times yields `n` distinct
/// members of it and leaves it empty. `sets[k]` is the set before the `k`-th pop and
/// `popped[k]` the square that pop returned.
pub proof fn lemma_pop_all(sets: Seq<Set<int>>, popped: Seq<int>)
    requires
        sets[0].finite(),
        popped.len() == sets[0].len(),
        sets.len() == popped.len() + 1,
        is_pop_chain(sets, popped),
    ensures
        sets[popped.len() as int] == Set::<int>::empty(),
        forall|k: int| 0 <= k < popped.len() ==> sets[0].contains(#[trigger] popped[k]),
        forall|j: int, k: int| 0 <= j < k < popped.len() ==> popped[j] != popped[k],
{
    let n = popped.len() as int;
    assert forall|k: int| 0 <= k < n implies sets[0].contains(#[trigger] popped[k]) by {
        lemma_pop_prefix(sets, popped, k);
        assert(sets[k].contains(popped[k]));
    }
    assert forall|j: int, k: int| 0 <= j < k < n implies popped[j] != popped[k] by {
        lemma_pop_prefix(sets, popped, k);
        assert(sets[k].contains(popped[k]));
    }
    lemma_pop_prefix(sets, popped, n);
    assert(sets[n].len() == 0);
    sets[n].lemma_len0_is_empty();
}

proof fn lemma_pop_prefix(sets: Seq<Set<int>>, popped: Seq<int>, k: int)
    requires
        sets[0].finite(),
        popped.len() == sets[0].len(),
        sets.len() == popped.len() + 1,
        is_pop_chain(sets, popped),
        0 <= k <= popped.len(),
    ensures
        sets[k].finite(),
        sets[k].len() == popped.len() - k,
        sets[k].subset_of(sets[0]),
        forall|j: int| 0 <= j < k ==> !sets[k].contains(popped[j]),
    decreases k,
{
    if k > 0 {
        lemma_pop_prefix(sets, popped, k - 1);
        assert(sets[k - 1].contains(popped[k - 1]));
        assert(sets[k] == sets[k - 1].remove(popped[k - 1]));
    }
}

/// Shifting down by `d` and then up by `d` keeps exactly the squares that the first
/// shift did not push off the board; shifting up and then down likewise.
pub proof fn lemma_shift_down_up(s: Set<int>, d: int)
    requires
        s.subset_of(all_squares()),
        0 <= d <= 9,
    ensures
        shift_up_set(shift_down_set(s, d), d) == s.intersect(
            Set::new(|i: int| rank_of(i) + d <= 9),
        ),
        shift_down_set(shift_up_set(s, d), d) == s.intersect(Set::new(|i: int| rank_of(i) > d)),
{
    assert forall|i: int| 1 <= i <= 81 && rank_of(i) + d <= 9 implies #[trigger] rank_of(i + d)
        == rank_of(i) + d by {
        assert((i - 1) % 9 + d < 9);
        assert((i + d - 1) % 9 == (i - 1) % 9 + d) by (nonlinear_arith)
            requires
                1 <= i,
                (i - 1) % 9 + d < 9,
                0 <= d,
        {
            assert(i - 1 == 9 * ((i - 1) / 9) + (i - 1) % 9);
        }
    }
    assert forall|i: int| 1 <= i <= 81 && rank_of(i) > d implies #[trigger] rank_of(i - d) + d
        == rank_of(i) by {
        assert((i - d - 1) % 9 + d == (i - 1) % 9) by (nonlinear_arith)
            requires
                1 <= i,
                (i - 1) % 9 >= d,
                0 <= d,
        {
            assert(i - 1 == 9 * ((i - 1) / 9) + (i - 1) % 9);
        }
    }
    assert(shift_up_set(shift_down_set(s, d), d) =~= s.intersect(
        Set::new(|i: int| rank_of(i) + d <= 9),
    ));
    assert(shift_down_set(shift_up_set(s, d), d) =~= s.intersect(
        Set::new(|i: int| rank_of(i) > d),
    ));
}

proof fn lemma_bit_value(w: u64, k: u64)
    requires
        k < 64,
    ensures
        (w >> k) & 1u64 == 0u64 || (w >> k) & 1u64 == 1u64,
{
    assert((w >> k) & 1u64 == 0u64 || (w >> k) & 1u64 == 1u64) by (bit_vector);
}

/// Two words below `2^n` that agree on their low `n` bits are equal.
proof fn lemma_words_agree(x: u64, y: u64, n: u64)
    requires
        n < 64,
        x >> n == 0,
        y >> n == 0,
        forall|k: u64| k < n ==> #[trigger] ((x >> k) & 1u64) == ((y >> k) & 1u64),
    ensures
        x == y,
{
    let z = x ^ y;
    lemma_high_clear(x, y, n);
    lemma_high_clear(y, x, n);
    vstd::std_specs::bits::axiom_u64_trailing_zeros(z);
    if z != 0 {
        let t = vstd::std_specs::bits::u64_trailing_zeros(z) as u64;
        lemma_bit_ops(x, y, t);
        lemma_bit_value(x, t);
        lemma_bit_value(y, t);
    }
    assert(x ^ y == 0u64 ==> x == y) by (bit_vector);
}

/// Whether bit `k` of `a` is set.
pub open spec fn bit128(a: u128, k: int) -> bool {
    0 <= k < 128 && (a >> (k as u128)) & 1u128 == 1u128
}

proof fn lemma_join_valid(lo: u64, hi: u64, k: u128)
    requires
        lo >> 63u64 == 0,
        hi >> 18u64 == 0,
    ensures
        (join_words(lo, hi) >> 63u128) & 1u128 == 0,
        join_words(lo, hi) >> 82u128 == 0,
        k < 64 ==> ((join_words(lo, hi) >> k) & 1u128 == 1u128 <==> (lo >> (k as u64)) & 1u64
            == 1u64),
        64 <= k < 128 ==> ((join_words(lo, hi) >> k) & 1u128 == 1u128 <==> (hi >> ((k
            - 64) as u64)) & 1u64 == 1u64),
{
    assert({
        let a = ((hi as u128) << 64u128) | (lo as u128);
        &&& (a >> 63u128) & 1u128 == 0
        &&& a >> 82u128 == 0
        &&& k < 64 ==> ((a >> k) & 1u128 == 1u128 <==> (lo >> (k as u64)) & 1u64 == 1u64)
        &&& 64 <= k < 128 ==> ((a >> k) & 1u128 == 1u128 <==> (hi >> ((k - 64) as u64)) & 1u64
            == 1u64)
    }) by (bit_vector)
        requires
            lo >> 63u64 == 0,
            hi >> 18u64 == 0,
    ;
}

/// Turning a bitboard into its 128-bit representation and back gives it back: `r` is
/// what [`Bitboard::from_u128_unchecked`] makes of what [`Bitboard::to_u128`] gives for `b`.
pub proof fn lemma_u128_round_trip(b: Bitboard, r: Bitboard)
    requires
        r.words() == (join_words(b.words().0, b.words().1) as u64, (join_words(
            b.words().0,
            b.words().1,
        ) >> 64u128) as u64),
    ensures
        r == b,
{
    lemma_join_words(0, b.words().0, b.words().1);
    r.lemma_words_eq(b);
}

/// Swapping the bytes of a bitboard twice gives it back: `s` is what
/// [`Bitboard::swap_bytes`] makes of `b`, and `r` what [`ByteSwappedBitboard::swap_bytes`]
/// makes of `s`.
pub proof fn lemma_swap_bytes_round_trip(b: Bitboard, s: ByteSwappedBitboard, r: Bitboard)
    requires
        s.words() == (byte_swap(b.words().1), byte_swap(b.words().0)),
        r.words() == (byte_swap(s.words().1), byte_swap(s.words().0)),
    ensures
        r == b,
{
    lemma_byte_swap(b.words().0, 0);
    lemma_byte_swap(b.words().1, 0);
    r.lemma_words_eq(b);
}

/// A set of squares, one bit per square in two words: squares 1 to 63 in bits 0 to 62
/// of the first word, squares 64 to 81 in bits 0 to 17 of the second.
#[derive(Eq, PartialEq, Structural, Clone, Copy, Debug, PartialOrd, Ord, Hash)]
pub struct Bitboard {
    lo: u64,
    hi: u64,
}

impl View for Bitboard {
    type V = Set<int>;

    /// The indices of the squares in the set.
    closed spec fn view(&self) -> Set<int> {
        Set::new(|i: int| 1 <= i <= 81 && self.has(i))
    }
}

impl Bitboard {
    /// The representation is valid: bit 63 of the first word and bits 18 and up of the
    /// second are clear. Every `Bitboard` value that the program holds is valid.
    #[verifier::type_invariant]
    pub closed spec fn valid(self) -> bool {
        self.lo >> 63u64 == 0 && self.hi >> 18u64 == 0
    }

    /// The word-wise or of `self` and `other`.
    pub closed spec fn or_spec(self, other: Bitboard) -> Bitboard {
        Bitboard { lo: self.lo | other.lo, hi: self.hi | other.hi }
    }

    /// The word-wise and of `self` and `other`.
    pub closed spec fn and_spec(self, other: Bitboard) -> Bitboard {
        Bitboard { lo: self.lo & other.lo, hi: self.hi & other.hi }
    }

    /// The word-wise xor of `self` and `other`.
    pub closed spec fn xor_spec(self, other: Bitboard) -> Bitboard {
        Bitboard { lo: self.lo ^ other.lo, hi: self.hi ^ other.hi }
    }

    /// The complement of `self` within the 81 squares.
    pub closed spec fn complement_spec(self) -> Bitboard {
        Bitboard { lo: !self.lo & 0x7fff_ffff_ffff_ffffu64, hi: !self.hi & 0x3_ffffu64 }
    }

    /// A bitboard is determined by its two words.
    pub proof fn lemma_words_eq(self, other: Bitboard)
        ensures
            (self.words() == other.words()) <==> (self == other),
    {
    }

    /// Valid bitboards with the same squares are equal.
    pub proof fn lemma_view_eq(self, other: Bitboard)
        requires
            self.valid(),
            other.valid(),
        ensures
            (self@ == other@) <==> (self == other),
    {
        if self@ == other@ {
            assert forall|k: u64| k < 63 implies #[trigger] ((self.lo >> k) & 1u64) == ((other.lo
                >> k) & 1u64) by {
                assert(self@.contains(k + 1) == other@.contains(k + 1));
                lemma_bit_value(self.lo, k);
                lemma_bit_value(other.lo, k);
            }
            assert forall|k: u64| k < 18 implies #[trigger] ((self.hi >> k) & 1u64) == ((other.hi
                >> k) & 1u64) by {
                assert(self@.contains(k + 64) == other@.contains(k + 64));
                lemma_bit_value(self.hi, k);
                lemma_bit_value(other.hi, k);
            }
            lemma_words_agree(self.lo, other.lo, 63);
            lemma_words_agree(self.hi, other.hi, 18);
        }
    }

    /// Whether the bit of square `i` is set.
    spec fn has(self, i: int) -> bool {
        if i <= 63 {
            bit(self.lo, i - 1)
        } else {
            bit(self.hi, i - 64)
        }
    }

    /// The two words of the representation.
    pub closed spec fn words(self) -> (u64, u64) {
        (self.lo, self.hi)
    }

    /// Every member of a bitboard is a square.
    pub proof fn lemma_view_squares(self)
        ensures
            self@.subset_of(all_squares()),
            self@.finite(),
    {
        assert(self@.subset_of(all_squares()));
        vstd::set_lib::lemma_int_range(1, 82);
        assert(all_squares() =~= vstd::set_lib::set_int_range(1, 82));
        vstd::set_lib::lemma_len_subset(self@, all_squares());
    }

    /// Creates an empty set.
    pub fn empty() -> (r: Bitboard)
        ensures
            r.valid(),
            r@ == Set::<int>::empty(),
    {
        proof {
            lemma_bit_zero(0);
        }
        let r = Bitboard { lo: 0, hi: 0 };
        proof {
            assert forall|i: int| 1 <= i <= 81 implies !r.has(i) by {
                if i <= 63 {
                    lemma_bit_zero((i - 1) as u64);
                } else {
                    lemma_bit_zero((i - 64) as u64);
                }
            }
        }
        assert(r@ =~= Set::<int>::empty());
        r
    }

    /// Creates the set holding `square` alone.
    pub fn single(square: Square) -> (r: Bitboard)
        ensures
            r.valid(),
            r@ == set![square@],
    {
        let index = square.array_index();
        let r = if index < 63 {
            let w = 1u64 << index as u64;
            proof {
                lemma_bit_single(index as u64, 0);
                lemma_bit_zero(0);
            }
            Bitboard { lo: w, hi: 0 }
        } else {
            let w = 1u64 << (index - 63) as u64;
            proof {
                lemma_bit_single((index - 63) as u64, 0);
                lemma_bit_zero(0);
            }
            Bitboard { lo: 0, hi: w }
        };
        proof {
            assert forall|i: int| 1 <= i <= 81 implies r.has(i) == (i == square@) by {
                if i <= 63 {
                    if index < 63 {
                        lemma_bit_single(index as u64, (i - 1) as u64);
                    } else {
                        lemma_bit_zero((i - 1) as u64);
                    }
                } else {
                    if index < 63 {
                        lemma_bit_zero((i - 64) as u64);
                    } else {
                        lemma_bit_single((index - 63) as u64, (i - 64) as u64);
                    }
                }
            }
        }
        assert(r@ =~= set![square@]);
        r
    }

    /// Whether `square` is a member of `self`.
    pub fn contains(self, square: Square) -> (r: bool)
        ensures
            r == self@.contains(square@),
    {
        let index = square.array_index();
        if index < 63 {
            (self.lo >> index as u64) & 1 == 1
        } else {
            (self.hi >> (index - 63) as u64) & 1 == 1
        }
    }

    /// The union of `self` and `other`.
    pub fn or(self, other: Bitboard) -> (r: Bitboard)
        ensures
            r.valid(),
            r@ == self@.union(other@),
            r.words() == (self.words().0 | other.words().0, self.words().1 | other.words().1),
            r == self.or_spec(other),
    {
        proof {
            use_type_invariant(&self);
            use_type_invariant(&other);
            lemma_high_clear(self.lo, other.lo, 63);
            lemma_high_clear(self.hi, other.hi, 18);
        }
        let r = Bitboard { lo: self.lo | other.lo, hi: self.hi | other.hi };
        proof {
            assert forall|i: int| 1 <= i <= 81 implies r.has(i) == (self.has(i) || other.has(i)) by {
                if i <= 63 {
                    lemma_bit_ops(self.lo, other.lo, (i - 1) as u64);
                } else {
                    lemma_bit_ops(self.hi, other.hi, (i - 64) as u64);
                }
            }
        }
        assert(r@ =~= self@.union(other@));
        r
    }

    /// The intersection of `self` and `other`.
    pub fn and(self, other: Bitboard) -> (r: Bitboard)
        ensures
            r.valid(),
            r@ == self@.intersect(other@),
            r.words() == (self.words().0 & other.words().0, self.words().1 & other.words().1),
            r == self.and_spec(other),
    {
        proof {
            use_type_invariant(&self);
            lemma_high_clear(self.lo, other.lo, 63);
            lemma_high_clear(self.hi, other.hi, 18);
        }
        let r = Bitboard { lo: self.lo & other.lo, hi: self.hi & other.hi };
        proof {
            assert forall|i: int| 1 <= i <= 81 implies r.has(i) == (self.has(i) && other.has(i)) by {
                if i <= 63 {
                    lemma_bit_ops(self.lo, other.lo, (i - 1) as u64);
                } else {
                    lemma_bit_ops(self.hi, other.hi, (i - 64) as u64);
                }
            }
        }
        assert(r@ =~= self@.intersect(other@));
        r
    }

    /// The symmetric difference of `self` and `other`.
    pub fn xor(self, other: Bitboard) -> (r: Bitboard)
        ensures
            r.valid(),
            r@ == self@.union(other@).difference(self@.intersect(other@)),
            r.words() == (self.words().0 ^ other.words().0, self.words().1 ^ other.words().1),
            r == self.xor_spec(other),
    {
        proof {
            use_type_invariant(&self);
            use_type_invariant(&other);
            lemma_high_clear(self.lo, other.lo, 63);
            lemma_high_clear(self.hi, other.hi, 18);
        }
        let r = Bitboard { lo: self.lo ^ other.lo, hi: self.hi ^ other.hi };
        proof {
            assert forall|i: int| 1 <= i <= 81 implies r.has(i) == (self.has(i) != other.has(i)) by {
                if i <= 63 {
                    lemma_bit_ops(self.lo, other.lo, (i - 1) as u64);
                } else {
                    lemma_bit_ops(self.hi, other.hi, (i - 64) as u64);
                }
            }
        }
        assert(r@ =~= self@.union(other@).difference(self@.intersect(other@)));
        r
    }

    /// The members of `other` that are not in `self` (`!self & other`).
    pub fn andnot(self, other: Bitboard) -> (r: Bitboard)
        ensures
            r.valid(),
            r@ == other@.difference(self@),
    {
        proof {
            use_type_invariant(&other);
            lemma_high_clear(other.lo, self.lo, 63);
            lemma_high_clear(other.hi, self.hi, 18);
        }
        let r = Bitboard { lo: !self.lo & other.lo, hi: !self.hi & other.hi };
        proof {
            assert forall|i: int| 1 <= i <= 81 implies r.has(i) == (!self.has(i) && other.has(i)) by {
                if i <= 63 {
                    lemma_bit_ops(self.lo, other.lo, (i - 1) as u64);
                } else {
                    lemma_bit_ops(self.hi, other.hi, (i - 64) as u64);
                }
            }
        }
        assert(r@ =~= other@.difference(self@));
        r
    }

    /// The squares that are not in `self`.
    pub fn not(self) -> (r: Bitboard)
        ensures
            r.valid(),
            r@ == all_squares().difference(self@),
            r.words() == (!self.words().0 & 0x7fff_ffff_ffff_ffffu64, !self.words().1 & 0x3_ffffu64),
            r == self.complement_spec(),
    {
        let m0: u64 = 0x7fff_ffff_ffff_ffff;
        let m1: u64 = 0x3_ffff;
        proof {
            assert(m0 >> 63u64 == 0 && m1 >> 18u64 == 0) by (bit_vector)
                requires
                    m0 == 0x7fff_ffff_ffff_ffffu64,
                    m1 == 0x3_ffffu64,
            ;
            lemma_high_clear(m0, self.lo, 63);
            lemma_high_clear(m1, self.hi, 18);
        }
        let r = Bitboard { lo: !self.lo & m0, hi: !self.hi & m1 };
        proof {
            assert forall|i: int| 1 <= i <= 81 implies r.has(i) == !self.has(i) by {
                if i <= 63 {
                    let k = (i - 1) as u64;
                    lemma_bit_ops(self.lo, m0, k);
                    assert(k < 63 ==> (m0 >> k) & 1u64 == 1u64) by (bit_vector)
                        requires
                            m0 == 0x7fff_ffff_ffff_ffffu64,
                    ;
                } else {
                    let k = (i - 64) as u64;
                    lemma_bit_ops(self.hi, m1, k);
                    assert(k < 18 ==> (m1 >> k) & 1u64 == 1u64) by (bit_vector)
                        requires
                            m1 == 0x3_ffffu64,
                    ;
                }
            }
        }
        assert(r@ =~= all_squares().difference(self@));
        r
    }

    /// Whether `self` has no members.
    pub fn is_empty(self) -> (r: bool)
        ensures
            r == (self@ == Set::<int>::empty()),
    {
        proof {
            use_type_invariant(&self);
            lemma_high_clear(self.lo, 0, 63);
            lemma_high_clear(self.hi, 0, 18);
            vstd::std_specs::bits::axiom_u64_trailing_zeros(self.lo);
            vstd::std_specs::bits::axiom_u64_trailing_zeros(self.hi);
            if self.lo != 0 {
                let t = vstd::std_specs::bits::u64_trailing_zeros(self.lo) as int;
                assert(self@.contains(t + 1));
            } else if self.hi != 0 {
                let t = vstd::std_specs::bits::u64_trailing_zeros(self.hi) as int;
                assert(self@.contains(t + 64));
            } else {
                assert forall|i: int| !self@.contains(i) by {
                    if 1 <= i <= 81 {
                        if i <= 63 {
                            lemma_bit_zero((i - 1) as u64);
                        } else {
                            lemma_bit_zero((i - 64) as u64);
                        }
                    }
                }
                assert(self@ =~= Set::<int>::empty());
            }
        }
        self.lo == 0 && self.hi == 0
    }

    /// Removes the member with the least index from `self` and returns it; `None` when
    /// `self` is empty, which is then left as it is.
    pub fn pop(&mut self) -> (r: Option<Square>)
        ensures
            final(self).valid(),
            old(self)@ == Set::<int>::empty() ==> r.is_none() && *final(self) == *old(self),
            old(self)@ != Set::<int>::empty() ==> r.is_some() && old(self)@.contains(r.unwrap()@)
                && final(self)@ == old(self)@.remove(r.unwrap()@) && (forall|j: int|
                old(self)@.contains(j) ==> r.unwrap()@ <= j),
    {
        proof {
            use_type_invariant(&*self);
        }
        let ghost before = *self;
        let lo = self.lo;
        let hi = self.hi;
        proof {
            lemma_high_clear(lo, 0, 63);
            lemma_high_clear(hi, 0, 18);
            vstd::std_specs::bits::axiom_u64_trailing_zeros(lo);
            vstd::std_specs::bits::axiom_u64_trailing_zeros(hi);
        }
        if lo != 0 {
            let t = lo.trailing_zeros();
            let sq = Square::from_u8_unchecked(t as u8 + 1);
            let w = lo & (lo - 1);
            proof {
                lemma_high_clear(lo, sub_one(lo), 63);
            }
            *self = Bitboard { lo: w, hi };
            proof {
                assert forall|i: int| 1 <= i <= 81 implies self.has(i) == (before.has(i) && i
                    != t + 1) by {
                    if i <= 63 {
                        lemma_clear_lowest(lo, t as u64, (i - 1) as u64);
                    }
                }
                assert forall|i: int| #[trigger] self@.contains(i) == before@.remove(sq@).contains(
                    i,
                ) by {
                    if 1 <= i <= 81 {
                        assert(self@.contains(i) == self.has(i));
                        assert(before@.contains(i) == before.has(i));
                    }
                }
                assert(self@ =~= before@.remove(sq@));
                assert(before@.contains(sq@));
                assert forall|j: int| before@.contains(j) implies sq@ <= j by {
                    if j <= t {
                        assert((lo >> ((j - 1) as u64)) & 1u64 == 0u64);
                    }
                }
            }
            Some(sq)
        } else if hi != 0 {
            let t = hi.trailing_zeros();
            let sq = Square::from_u8_unchecked(t as u8 + 64);
            let w = hi & (hi - 1);
            proof {
                lemma_high_clear(hi, sub_one(hi), 18);
            }
            *self = Bitboard { lo, hi: w };
            proof {
                assert forall|i: int| 1 <= i <= 81 implies self.has(i) == (before.has(i) && i
                    != t + 64) by {
                    if i > 63 {
                        lemma_clear_lowest(hi, t as u64, (i - 64) as u64);
                    }
                }
                assert forall|i: int| #[trigger] self@.contains(i) == before@.remove(sq@).contains(
                    i,
                ) by {
                    if 1 <= i <= 81 {
                        assert(self@.contains(i) == self.has(i));
                        assert(before@.contains(i) == before.has(i));
                    }
                }
                assert(self@ =~= before@.remove(sq@));
                assert(before@.contains(sq@));
                assert forall|j: int| before@.contains(j) implies sq@ <= j by {
                    if j <= 63 {
                        lemma_bit_zero((j - 1) as u64);
                    } else if j < t + 64 {
                        assert((hi >> ((j - 64) as u64)) & 1u64 == 0u64);
                    }
                }
            }
            Some(sq)
        } else {
            proof {
                assert forall|i: int| !before@.contains(i) by {
                    if 1 <= i <= 81 {
                        if i <= 63 {
                            lemma_bit_zero((i - 1) as u64);
                        } else {
                            lemma_bit_zero((i - 64) as u64);
                        }
                    }
                }
                assert(before@ =~= Set::<int>::empty());
            }
            None
        }
    }

    /// How many squares `self` holds.
    pub fn count(self) -> (r: u8)
        ensures
            r == self@.len(),
            r <= 81,
    {
        proof {
            use_type_invariant(&self);
            self.lemma_view_squares();
            lemma_bits_of_finite(self.lo);
            lemma_bits_of_finite(self.hi);
            lemma_high_clear(self.lo, 0, 63);
            lemma_high_clear(self.hi, 0, 18);
            let f0 = |k: int| k + 1;
            let f1 = |k: int| k + 64;
            let a = bits_of(self.lo).map(f0);
            let b = bits_of(self.hi).map(f1);
            vstd::set_lib::lemma_map_size(bits_of(self.lo), a, f0);
            vstd::set_lib::lemma_map_size(bits_of(self.hi), b, f1);
            assert forall|i: int| self@.contains(i) <==> (a + b).contains(i) by {
                if a.contains(i) {
                    let k = choose|k: int| bits_of(self.lo).contains(k) && f0(k) == i;
                    assert(k < 63);
                }
                if b.contains(i) {
                    let k = choose|k: int| bits_of(self.hi).contains(k) && f1(k) == i;
                    assert(k < 18);
                }
                if self@.contains(i) {
                    if i <= 63 {
                        assert(bits_of(self.lo).contains(i - 1));
                        assert(f0(i - 1) == i);
                    } else {
                        assert(bits_of(self.hi).contains(i - 64));
                        assert(f1(i - 64) == i);
                    }
                }
            }
            assert(self@ =~= a + b);
            assert(a.disjoint(b)) by {
                assert forall|i: int| a.contains(i) implies !b.contains(i) by {
                    let k = choose|k: int| bits_of(self.lo).contains(k) && f0(k) == i;
                    assert(k < 63);
                    if b.contains(i) {
                        let j = choose|j: int| bits_of(self.hi).contains(j) && f1(j) == i;
                    }
                }
            }
            vstd::set_lib::lemma_set_disjoint_lens(a, b);
            vstd::set_lib::lemma_int_range(1, 82);
            assert(all_squares() =~= vstd::set_lib::set_int_range(1, 82));
            vstd::set_lib::lemma_len_subset(self@, all_squares());
        }
        (count_ones(self.lo) + count_ones(self.hi)) as u8
    }

    /// The set reflected through the centre of the board: square `i` goes to `82 - i`.
    pub fn flip(self) -> (r: Bitboard)
        ensures
            r.valid(),
            r@ == flip_set(self@),
    {
        proof {
            use_type_invariant(&self);
        }
        let fst_rev = ((self.lo >> 17u64) | (self.hi << 46u64)) & !1u64;
        let snd_rev = self.lo << 46u64;
        let lo = reverse_bits(fst_rev);
        let hi = reverse_bits(snd_rev);
        proof {
            assert forall|k: u64| 63 <= k < 64 implies #[trigger] ((lo >> k) & 1u64) == 0u64 by {
                lemma_flip_bits(self.lo, self.hi, (63 - k) as u64);
            }
            lemma_high_bits_clear(lo, 63);
            assert forall|k: u64| 18 <= k < 64 implies #[trigger] ((hi >> k) & 1u64) == 0u64 by {
                lemma_flip_bits(self.lo, self.hi, (63 - k) as u64);
            }
            lemma_high_bits_clear(hi, 18);
        }
        let r = Bitboard { lo, hi };
        proof {
            assert forall|i: int| 1 <= i <= 81 implies r.has(i) == self.has(82 - i) by {
                if i <= 63 {
                    let k = (i - 1) as u64;
                    assert(((lo >> k) & 1u64) == (fst_rev >> ((63 - k) as u64)) & 1u64);
                    lemma_flip_bits(self.lo, self.hi, (63 - k) as u64);
                } else {
                    let k = (i - 64) as u64;
                    assert(((hi >> k) & 1u64) == (snd_rev >> ((63 - k) as u64)) & 1u64);
                    lemma_flip_bits(self.lo, self.hi, (63 - k) as u64);
                }
            }
            assert(r@ =~= flip_set(self@));
        }
        r
    }

    /// Moves every square `delta` ranks down (towards rank 9); squares that would leave
    /// the board are dropped.
    pub fn shift_down(self, delta: u8) -> (r: Bitboard)
        requires
            delta <= 9,
        ensures
            r.valid(),
            r@ == shift_down_set(self@, delta as int),
    {
        proof {
            use_type_invariant(&self);
        }
        let d = delta as u64;
        let top = 0x8040_2010_0804_0200u64;
        proof {
            lemma_shift_down_bits(self.lo, self.hi, d, 0, 0);
        }
        let mask = top - (top >> (9 - d));
        let lo = (self.lo << d) & mask;
        let hi = (((#[verifier::truncate] (self.hi as u32)) << (d as u32)) & (
        #[verifier::truncate] (mask as u32))) as u64;
        let r = Bitboard { lo, hi };
        proof {
            assert forall|i: int| 1 <= i <= 81 implies r.has(i) == (rank_of(i) > delta
                && self.has(i - delta)) by {
                if i <= 63 {
                    let f = ((i - 1) / 9) as u64;
                    let q = ((i - 1) % 9) as u64;
                    lemma_shift_down_bits(self.lo, self.hi, d, f, q);
                } else {
                    let f = ((i - 64) / 9) as u64;
                    let q = ((i - 64) % 9) as u64;
                    lemma_shift_down_bits(self.lo, self.hi, d, f, q);
                }
            }
            assert(r@ =~= shift_down_set(self@, delta as int));
        }
        r
    }

    /// Moves every square `delta` ranks up (towards rank 1); squares that would leave the
    /// board are dropped.
    pub fn shift_up(self, delta: u8) -> (r: Bitboard)
        requires
            delta <= 9,
        ensures
            r.valid(),
            r@ == shift_up_set(self@, delta as int),
    {
        proof {
            use_type_invariant(&self);
        }
        let d = delta as u64;
        let bottom = 0x40_2010_0804_0201u64;
        proof {
            lemma_shift_up_bits(self.lo, self.hi, d, 0, 0);
        }
        let mask = (bottom << (9 - d)) - bottom;
        let lo = (self.lo >> d) & mask;
        let hi = (((#[verifier::truncate] (self.hi as u32)) >> (d as u32)) & (
        #[verifier::truncate] (mask as u32))) as u64;
        let r = Bitboard { lo, hi };
        proof {
            assert forall|i: int| 1 <= i <= 81 implies r.has(i) == (rank_of(i) + delta <= 9
                && self.has(i + delta)) by {
                if i <= 63 {
                    let f = ((i - 1) / 9) as u64;
                    let q = ((i - 1) % 9) as u64;
                    lemma_shift_up_bits(self.lo, self.hi, d, f, q);
                } else {
                    let f = ((i - 64) / 9) as u64;
                    let q = ((i - 64) % 9) as u64;
                    lemma_shift_up_bits(self.lo, self.hi, d, f, q);
                }
            }
            assert(r@ =~= shift_up_set(self@, delta as int));
        }
        r
    }

    /// Moves every square `delta` files left (towards file 9); squares that would leave
    /// the board are dropped.
    pub fn shift_left(self, delta: u8) -> (r: Bitboard)
        requires
            delta <= 9,
        ensures
            r.valid(),
            r@ == shift_left_set(self@, delta as int),
    {
        proof {
            use_type_invariant(&self);
        }
        let d = delta as u64;
        let mask0: u64 = 0x7fff_ffff_ffff_ffff;
        let mask1: u64 = 0x3_ffff;
        proof {
            assert(mask0 >> 63u64 == 0 && mask1 >> 18u64 == 0) by (bit_vector)
                requires
                    mask0 == 0x7fff_ffff_ffff_ffffu64,
                    mask1 == 0x3_ffffu64,
            ;
        }
        let (lo, hi) = if d <= 1 {
            (
                (self.lo << (9 * d)) & mask0,
                ((self.hi << (9 * d)) | (self.lo >> (63 - 9 * d))) & mask1,
            )
        } else if d <= 7 {
            ((self.lo << (9 * d)) & mask0, (self.lo >> (63 - 9 * d)) & mask1)
        } else {
            (0u64, (self.lo << (9 * d - 63)) & mask1)
        };
        proof {
            lemma_high_clear(mask0, 0, 63);
            lemma_high_clear(mask0, self.lo << (9 * d) as u64, 63);
            lemma_high_clear(mask1, 0, 18);
            if d <= 1 {
                lemma_high_clear(mask1, (self.hi << (9 * d) as u64) | (self.lo >> (63 - 9 * d) as u64), 18);
            } else if d <= 7 {
                lemma_high_clear(mask1, self.lo >> (63 - 9 * d) as u64, 18);
            } else {
                lemma_high_clear(mask1, self.lo << (9 * d - 63) as u64, 18);
                lemma_bit_zero(0);
            }
        }
        let r = Bitboard { lo, hi };
        proof {
            assert forall|i: int| 1 <= i <= 81 implies r.has(i) == (file_of(i) > delta && self.has(
                i - 9 * delta,
            )) by {
                if i <= 63 {
                    let f = ((i - 1) / 9) as u64;
                    let q = ((i - 1) % 9) as u64;
                    lemma_shift_left_bits(self.lo, self.hi, d, f, 0, q);
                    if d >= 8 {
                        lemma_bit_zero((i - 1) as u64);
                    }
                } else {
                    let g = ((i - 64) / 9) as u64;
                    let q = ((i - 64) % 9) as u64;
                    lemma_shift_left_bits(self.lo, self.hi, d, 0, g, q);
                }
            }
            assert(r@ =~= shift_left_set(self@, delta as int));
        }
        r
    }

    /// Moves every square `delta` files right (towards file 1); squares that would leave
    /// the board are dropped.
    pub fn shift_right(self, delta: u8) -> (r: Bitboard)
        requires
            delta <= 9,
        ensures
            r.valid(),
            r@ == shift_right_set(self@, delta as int),
    {
        proof {
            use_type_invariant(&self);
            lemma_high_clear(self.lo, 0, 63);
            lemma_high_clear(self.hi, 0, 18);
        }
        let d = delta as u64;
        let mask0: u64 = 0x7fff_ffff_ffff_ffff;
        proof {
            assert(mask0 >> 63u64 == 0) by (bit_vector)
                requires
                    mask0 == 0x7fff_ffff_ffff_ffffu64,
            ;
            lemma_shift_right_bits(self.lo, self.hi, d, 0, 0, 0);
            if d <= 7 {
                lemma_high_clear(
                    mask0,
                    (self.lo >> (9 * d) as u64) | (self.hi << (63 - 9 * d) as u64),
                    63,
                );
            }
            lemma_bit_zero(0);
        }
        let (lo, hi) = if d <= 1 {
            (((self.lo >> (9 * d)) | (self.hi << (63 - 9 * d))) & mask0, self.hi >> (9 * d))
        } else if d <= 7 {
            ((self.lo >> (9 * d)) | (self.hi << (63 - 9 * d)), 0u64)
        } else {
            (self.hi >> (9 * d - 63), 0u64)
        };
        let r = Bitboard { lo, hi };
        proof {
            assert forall|i: int| 1 <= i <= 81 implies r.has(i) == (file_of(i) + delta <= 9
                && self.has(i + 9 * delta)) by {
                if i <= 63 {
                    let f = ((i - 1) / 9) as u64;
                    let q = ((i - 1) % 9) as u64;
                    lemma_shift_right_bits(self.lo, self.hi, d, f, 0, q);
                } else {
                    let g = ((i - 64) / 9) as u64;
                    let q = ((i - 64) % 9) as u64;
                    lemma_shift_right_bits(self.lo, self.hi, d, 0, g, q);
                    if d > 1 {
                        lemma_bit_zero((i - 64) as u64);
                    }
                }
            }
            assert(r@ =~= shift_right_set(self@, delta as int));
        }
        r
    }

    /// The representation as one number: the first word in the low 64 bits, the second
    /// above them.
    pub fn to_u128(self) -> (r: u128)
        ensures
            r == join_words(self.words().0, self.words().1),
            (r >> 63u128) & 1u128 == 0,
            r >> 82u128 == 0,
            forall|i: int|
                1 <= i <= 81 ==> (self@.contains(i) <==> bit128(
                    r,
                    if i <= 63 {
                        i - 1
                    } else {
                        i
                    },
                )),
    {
        proof {
            use_type_invariant(&self);
            lemma_join_valid(self.lo, self.hi, 0);
            assert forall|i: int| 1 <= i <= 81 implies (self@.contains(i) <==> bit128(
                join_words(self.lo, self.hi),
                if i <= 63 {
                    i - 1
                } else {
                    i
                },
            )) by {
                if i <= 63 {
                    lemma_join_valid(self.lo, self.hi, (i - 1) as u128);
                } else {
                    lemma_join_valid(self.lo, self.hi, i as u128);
                }
            }
        }
        ((self.hi as u128) << 64u128) | (self.lo as u128)
    }

    /// The bitboard whose representation is `a`, which the caller guarantees to be valid:
    /// bit 63 and the bits from 82 up are clear.
    pub fn from_u128_unchecked(a: u128) -> (r: Bitboard)
        requires
            (a >> 63u128) & 1u128 == 0,
            a >> 82u128 == 0,
        ensures
            r.valid(),
            r.words() == (a as u64, (a >> 64u128) as u64),
            join_words(r.words().0, r.words().1) == a,
    {
        let v0 = a as u64;
        let v1 = (a >> 64u128) as u64;
        proof {
            lemma_join_words(a, v0, v1);
            assert((a >> 63u128) & 1u128 == 0 && a >> 82u128 == 0 ==> (a as u64) >> 63u64 == 0
                && ((a >> 64u128) as u64) >> 18u64 == 0) by (bit_vector);
        }
        Bitboard { lo: v0, hi: v1 }
    }

    /// The set of the squares of file `file` whose rank `k + 1` has bit `k` of `pattern`
    /// set; the caller guarantees `1 <= file <= 9` and `pattern < 512`.
    pub fn from_file_unchecked(file: u8, pattern: u16) -> (r: Bitboard)
        requires
            1 <= file <= 9,
            pattern < 512,
        ensures
            r.valid(),
            r@ == Set::new(
                |i: int|
                    1 <= i <= 81 && file_of(i) == file && pattern_bit(pattern, rank_of(i) - 1),
            ),
    {
        let p = pattern as u64;
        proof {
            lemma_bit_zero(0);
        }
        let r = if file <= 7 {
            let s = (file - 1) as u64;
            proof {
                lemma_file_bits(p, s, 0, 0);
            }
            Bitboard { lo: p << (9 * s), hi: 0 }
        } else {
            let s = (file - 8) as u64;
            proof {
                lemma_file_bits(p, s, 0, 0);
            }
            Bitboard { lo: 0, hi: p << (9 * s) }
        };
        proof {
            assert forall|i: int| 1 <= i <= 81 implies r.has(i) == (file_of(i) == file
                && pattern_bit(pattern, rank_of(i) - 1)) by {
                let q = ((i - 1) % 9) as u64;
                if i <= 63 {
                    let f = ((i - 1) / 9) as u64;
                    if file <= 7 {
                        lemma_file_bits(p, (file - 1) as u64, f, q);
                    } else {
                        lemma_bit_zero((i - 1) as u64);
                    }
                } else {
                    let g = ((i - 64) / 9) as u64;
                    if file <= 7 {
                        lemma_bit_zero((i - 64) as u64);
                    } else {
                        lemma_file_bits(p, (file - 8) as u64, g, q);
                    }
                }
            }
            assert(r@ =~= Set::new(
                |i: int|
                    1 <= i <= 81 && file_of(i) == file && pattern_bit(pattern, rank_of(i) - 1),
            ));
        }
        r
    }

    /// The squares of file `file` in `self`, bit `k` standing for rank `k + 1`; the caller
    /// guarantees `1 <= file <= 9`.
    pub fn get_file_unchecked(self, file: u8) -> (r: u16)
        requires
            1 <= file <= 9,
        ensures
            r < 512,
            forall|k: int|
                0 <= k < 9 ==> (#[trigger] pattern_bit(r, k) <==> self@.contains(
                    index_of(file as int, k + 1),
                )),
    {
        proof {
            use_type_invariant(&self);
            lemma_high_clear(self.lo, 0, 63);
            lemma_high_clear(self.hi, 0, 18);
        }
        let s: u64 = if file <= 7 {
            (file as u64 - 1) * 9
        } else {
            (file as u64 - 8) * 9
        };
        let w = if file <= 7 {
            self.lo
        } else {
            self.hi
        };
        let r = (#[verifier::truncate] ((w >> s) as u16)) & 0x1ff;
        proof {
            assert forall|k: int| 0 <= k < 9 implies pattern_bit(r, k) <==> self@.contains(
                index_of(file as int, k + 1),
            ) by {
                lemma_get_file_bits(w, s, k as u64);
            }
            lemma_get_file_bits(w, s, 0);
        }
        r
    }

    /// The bitboard with the bytes of its representation reversed.
    pub fn swap_bytes(self) -> (r: ByteSwappedBitboard)
        ensures
            r.words() == (byte_swap(self.words().1), byte_swap(self.words().0)),
    {
        proof {
            use_type_invariant(&self);
            lemma_byte_swap(self.lo, 0);
            lemma_byte_swap(self.hi, 0);
        }
        ByteSwappedBitboard { w0: swap_bytes(self.hi), w1: swap_bytes(self.lo) }
    }
}


/// A [`Bitboard`] with all bytes of its representation reversed, both words swapped
/// and each word's bytes reversed.
#[derive(Eq, PartialEq, Structural, Clone, Copy, Debug, PartialOrd, Ord, Hash)]
pub struct ByteSwappedBitboard {
    w0: u64,
    w1: u64,
}

impl ByteSwappedBitboard {
    #[verifier::type_invariant]
    spec fn inv(self) -> bool {
        byte_swap(self.w0) >> 18u64 == 0 && byte_swap(self.w1) >> 63u64 == 0
    }

    /// The two words of the representation.
    pub closed spec fn words(self) -> (u64, u64) {
        (self.w0, self.w1)
    }

    /// The representation as one number: the first word in the low 64 bits.
    pub fn to_u128(self) -> (r: u128)
        ensures
            r == join_words(self.words().0, self.words().1),
    {
        ((self.w1 as u128) << 64u128) | (self.w0 as u128)
    }

    /// The value whose representation is `a`, which the caller guarantees to be the byte
    /// reversal of a valid [`Bitboard`] representation.
    pub fn from_u128_unchecked(a: u128) -> (r: ByteSwappedBitboard)
        requires
            byte_swap(a as u64) >> 18u64 == 0,
            byte_swap((a >> 64u128) as u64) >> 63u64 == 0,
        ensures
            r.words() == (a as u64, (a >> 64u128) as u64),
    {
        ByteSwappedBitboard { w0: a as u64, w1: (a >> 64u128) as u64 }
    }

    /// Bitwise or.
    pub fn or(self, other: ByteSwappedBitboard) -> (r: ByteSwappedBitboard)
        ensures
            r.words() == (self.words().0 | other.words().0, self.words().1 | other.words().1),
    {
        proof {
            use_type_invariant(&self);
            use_type_invariant(&other);
            lemma_byte_swap(self.w0, other.w0);
            lemma_byte_swap(self.w1, other.w1);
            lemma_high_clear(byte_swap(self.w0), byte_swap(other.w0), 18);
            lemma_high_clear(byte_swap(self.w1), byte_swap(other.w1), 63);
        }
        ByteSwappedBitboard { w0: self.w0 | other.w0, w1: self.w1 | other.w1 }
    }

    /// Bitwise and.
    pub fn and(self, other: ByteSwappedBitboard) -> (r: ByteSwappedBitboard)
        ensures
            r.words() == (self.words().0 & other.words().0, self.words().1 & other.words().1),
    {
        proof {
            use_type_invariant(&self);
            lemma_byte_swap(self.w0, other.w0);
            lemma_byte_swap(self.w1, other.w1);
            lemma_high_clear(byte_swap(self.w0), byte_swap(other.w0), 18);
            lemma_high_clear(byte_swap(self.w1), byte_swap(other.w1), 63);
        }
        ByteSwappedBitboard { w0: self.w0 & other.w0, w1: self.w1 & other.w1 }
    }

    /// Bitwise xor.
    pub fn xor(self, other: ByteSwappedBitboard) -> (r: ByteSwappedBitboard)
        ensures
            r.words() == (self.words().0 ^ other.words().0, self.words().1 ^ other.words().1),
    {
        proof {
            use_type_invariant(&self);
            use_type_invariant(&other);
            lemma_byte_swap(self.w0, other.w0);
            lemma_byte_swap(self.w1, other.w1);
            lemma_high_clear(byte_swap(self.w0), byte_swap(other.w0), 18);
            lemma_high_clear(byte_swap(self.w1), byte_swap(other.w1), 63);
        }
        ByteSwappedBitboard { w0: self.w0 ^ other.w0, w1: self.w1 ^ other.w1 }
    }

    /// Bitwise andnot (`!self & other`).
    pub fn andnot(self, other: ByteSwappedBitboard) -> (r: ByteSwappedBitboard)
        ensures
            r.words() == (!self.words().0 & other.words().0, !self.words().1 & other.words().1),
    {
        proof {
            use_type_invariant(&other);
            lemma_byte_swap(self.w0, other.w0);
            lemma_byte_swap(self.w1, other.w1);
            lemma_high_clear(byte_swap(other.w0), byte_swap(self.w0), 18);
            lemma_high_clear(byte_swap(other.w1), byte_swap(self.w1), 63);
        }
        ByteSwappedBitboard { w0: !self.w0 & other.w0, w1: !self.w1 & other.w1 }
    }

    /// The [`Bitboard`] whose bytes `self` holds reversed.
    pub fn swap_bytes(self) -> (r: Bitboard)
        ensures
            r.valid(),
            r.words() == (byte_swap(self.words().1), byte_swap(self.words().0)),
    {
        proof {
            use_type_invariant(&self);
        }
        Bitboard { lo: swap_bytes(self.w1), hi: swap_bytes(self.w0) }
    }
}


impl core::ops::BitOr for Bitboard {
    type Output = Bitboard;

    /// The union.
    fn bitor(self, rhs: Bitboard) -> (r: Bitboard) {
        self.or(rhs)
    }
}

impl vstd::std_specs::ops::BitOrSpecImpl for Bitboard {
    open spec fn obeys_bitor_spec() -> bool {
        true
    }

    open spec fn bitor_req(self, rhs: Bitboard) -> bool {
        true
    }

    open spec fn bitor_spec(self, rhs: Bitboard) -> Bitboard {
        self.or_spec(rhs)
    }
}

impl core::ops::BitAnd for Bitboard {
    type Output = Bitboard;

    /// The intersection.
    fn bitand(self, rhs: Bitboard) -> (r: Bitboard) {
        self.and(rhs)
    }
}

impl vstd::std_specs::ops::BitAndSpecImpl for Bitboard {
    open spec fn obeys_bitand_spec() -> bool {
        true
    }

    open spec fn bitand_req(self, rhs: Bitboard) -> bool {
        true
    }

    open spec fn bitand_spec(self, rhs: Bitboard) -> Bitboard {
        self.and_spec(rhs)
    }
}

impl core::ops::BitXor for Bitboard {
    type Output = Bitboard;

    /// The symmetric difference.
    fn bitxor(self, rhs: Bitboard) -> (r: Bitboard) {
        self.xor(rhs)
    }
}

impl vstd::std_specs::ops::BitXorSpecImpl for Bitboard {
    open spec fn obeys_bitxor_spec() -> bool {
        true
    }

    open spec fn bitxor_req(self, rhs: Bitboard) -> bool {
        true
    }

    open spec fn bitxor_spec(self, rhs: Bitboard) -> Bitboard {
        self.xor_spec(rhs)
    }
}

impl core::ops::Not for Bitboard {
    type Output = Bitboard;

    /// The squares not in `self`.
    fn not(self) -> (r: Bitboard) {
        Bitboard::not(self)
    }
}

impl vstd::std_specs::ops::NotSpecImpl for Bitboard {
    open spec fn obeys_not_spec() -> bool {
        true
    }

    open spec fn not_req(self) -> bool {
        true
    }

    open spec fn not_spec(self) -> Bitboard {
        self.complement_spec()
    }
}

} // verus!
