use vstd::arithmetic::power2::{lemma2_to64, lemma2_to64_rest, lemma_pow2_pos, lemma_pow2_strictly_increases, lemma_pow2_unfold, pow2};
use vstd::prelude::*;

verus! {

/// Bit `i` of `v`.
pub open spec fn bit_of(v: u64, i: nat) -> bool {
    (v as nat / pow2(i)) % 2 == 1
}

/// How many of the lowest `k` bits of `a` and `b` differ.
pub open spec fn differing_bits(a: u64, b: u64, k: nat) -> nat
    decreases k,
{
    if k == 0 {
        0
    } else {
        differing_bits(a, b, (k - 1) as nat) + if bit_of(a, (k - 1) as nat) != bit_of(b, (k - 1) as nat) {
            1nat
        } else {
            0nat
        }
    }
}

/// Sum of channel `c` over pixels `x0 .. x0 + n` of row `y`.
pub open spec fn row_sum(bytes: Seq<u8>, w: int, cc: int, c: int, y: int, x0: int, n: int) -> int
    decreases n,
{
    if n <= 0 {
        0
    } else {
        row_sum(bytes, w, cc, c, y, x0, n - 1) + bytes[(y * w + x0 + n - 1) * cc + c]
    }
}

/// Sum of channel `c` over the rectangle of `nx` by `ny` pixels at `(x0, y0)`.
pub open spec fn rect_sum(bytes: Seq<u8>, w: int, cc: int, c: int, x0: int, y0: int, nx: int, ny: int) -> int
    decreases ny,
{
    if ny <= 0 {
        0
    } else {
        rect_sum(bytes, w, cc, c, x0, y0, nx, ny - 1) + row_sum(bytes, w, cc, c, y0 + ny - 1, x0, nx)
    }
}

/// Brightness of cell `(cx, cy)` of the 9 by 8 grid: the weights 299, 587
/// and 114 over the red, green and blue sums of an image with three or more
/// channels, the sum of the only channel otherwise; zero for an image
/// without channels.
pub open spec fn cell_value(bytes: Seq<u8>, w: int, h: int, cc: int, cx: int, cy: int) -> int {
    let cw = w / 9;
    let ch = h / 8;
    if cc <= 0 {
        0
    } else if cc >= 3 {
        299 * rect_sum(bytes, w, cc, 0, cx * cw, cy * ch, cw, ch) + 587 * rect_sum(bytes, w, cc, 1, cx * cw, cy * ch, cw, ch)
            + 114 * rect_sum(bytes, w, cc, 2, cx * cw, cy * ch, cw, ch)
    } else {
        rect_sum(bytes, w, cc, 0, cx * cw, cy * ch, cw, ch)
    }
}

/// Bit `i` of the hash: whether cell `i % 8` of grid row `i / 8` is brighter
/// than its right neighbour.
pub open spec fn hash_bit(bytes: Seq<u8>, w: int, h: int, cc: int, i: int) -> bool {
    cell_value(bytes, w, h, cc, i % 8, i / 8) > cell_value(bytes, w, h, cc, i % 8 + 1, i / 8)
}

/// The hash built from its lowest `k` bits.
pub open spec fn hash_value(bytes: Seq<u8>, w: int, h: int, cc: int, k: nat) -> nat
    decreases k,
{
    if k == 0 {
        0
    } else {
        hash_value(bytes, w, h, cc, (k - 1) as nat) + if hash_bit(bytes, w, h, cc, k - 1) {
            pow2((k - 1) as nat)
        } else {
            0
        }
    }
}

/// A difference hash of an image: 64 bits, one for each pair of
/// neighbouring cells of a 9 by 8 grid.
#[derive(Debug, Clone, Copy)]
pub struct DHash {
    pub hash: u64,
}

proof fn lemma_pow2_bound(k: nat)
    requires
        k <= 64,
    ensures
        1 <= pow2(k) <= 18446744073709551616,
        k < 64 ==> pow2(k) <= 9223372036854775808,
        k < 64 ==> pow2((k + 1) as nat) == 2 * pow2(k),
{
    lemma2_to64();
    lemma2_to64_rest();
    lemma_pow2_pos(k);
    if k < 63 {
        lemma_pow2_strictly_increases(k, 63);
    }
    if k < 64 {
        lemma_pow2_strictly_increases(k, 64);
        lemma_pow2_unfold((k + 1) as nat);
    }
}

proof fn lemma_hash_value_bound(bytes: Seq<u8>, w: int, h: int, cc: int, k: nat)
    ensures
        hash_value(bytes, w, h, cc, k) < pow2(k),
    decreases k,
{
    if k > 0 {
        lemma_hash_value_bound(bytes, w, h, cc, (k - 1) as nat);
        lemma_pow2_unfold(k);
    } else {
        lemma2_to64();
    }
}

proof fn lemma_row_sum_bound(bytes: Seq<u8>, w: int, cc: int, c: int, y: int, x0: int, n: int)
    ensures
        0 <= row_sum(bytes, w, cc, c, y, x0, n) <= 255 * (if n < 0 { 0 } else { n }),
    decreases n,
{
    if n > 0 {
        lemma_row_sum_bound(bytes, w, cc, c, y, x0, n - 1);
    }
}

proof fn lemma_rect_sum_bound(bytes: Seq<u8>, w: int, cc: int, c: int, x0: int, y0: int, nx: int, ny: int)
    requires
        nx >= 0,
    ensures
        0 <= rect_sum(bytes, w, cc, c, x0, y0, nx, ny) <= 255 * nx * (if ny < 0 { 0 } else { ny }),
    decreases ny,
{
    if ny > 0 {
        lemma_rect_sum_bound(bytes, w, cc, c, x0, y0, nx, ny - 1);
        lemma_row_sum_bound(bytes, w, cc, c, y0 + ny - 1, x0, nx);
        assert(255 * nx * (ny - 1) + 255 * nx == 255 * nx * ny) by (nonlinear_arith);
    }
}

/// Sum of channel `c` over the rectangle of `nx` by `ny` pixels at `(x0, y0)`.
fn sum_rect(bytes: &[u8], w: usize, h: usize, cc: usize, c: usize, x0: usize, y0: usize, nx: usize, ny: usize) -> (r: u128)
    requires
        bytes@.len() == w * h * cc,
        c < cc,
        x0 + nx <= w,
        y0 + ny <= h,
    ensures
        r == rect_sum(bytes@, w as int, cc as int, c as int, x0 as int, y0 as int, nx as int, ny as int),
{
    let len = bytes.len();
    let mut total: u128 = 0;
    let mut dy: usize = 0;
    while dy < ny
        invariant
            bytes@.len() == w * h * cc,
            len == bytes@.len(),
            c < cc,
            x0 + nx <= w,
            y0 + ny <= h,
            dy <= ny,
            total == rect_sum(bytes@, w as int, cc as int, c as int, x0 as int, y0 as int, nx as int, dy as int),
        decreases ny - dy,
    {
        let y = y0 + dy;
        let mut row: u128 = 0;
        let mut dx: usize = 0;
        while dx < nx
            invariant
                bytes@.len() == w * h * cc,
                len == bytes@.len(),
                c < cc,
                x0 + nx <= w,
                y < h,
                dx <= nx,
                row == row_sum(bytes@, w as int, cc as int, c as int, y as int, x0 as int, dx as int),
            decreases nx - dx,
        {
            let x = x0 + dx;
            proof {
                lemma_row_sum_bound(bytes@, w as int, cc as int, c as int, y as int, x0 as int, dx as int);
                assert(255 * dx <= 255 * 18446744073709551615u128) by (nonlinear_arith)
                    requires dx <= 18446744073709551615u128;
                assert((y * w + x) * cc + c < w * h * cc) by (nonlinear_arith)
                    requires x < w, y < h, c < cc;
                assert(y * w + x <= (y * w + x) * cc) by (nonlinear_arith)
                    requires cc >= 1, y * w + x >= 0;
                assert(y * w <= y * w + x);
            }
            let i = (y * w + x) * cc + c;
            row = row + bytes[i] as u128;
            dx = dx + 1;
        }
        proof {
            lemma_rect_sum_bound(bytes@, w as int, cc as int, c as int, x0 as int, y0 as int, nx as int, dy as int);
            lemma_row_sum_bound(bytes@, w as int, cc as int, c as int, y as int, x0 as int, nx as int);
            assert(nx * dy <= w * h) by (nonlinear_arith)
                requires nx <= w, dy <= h;
            assert(w * h <= w * h * cc) by (nonlinear_arith)
                requires cc >= 1, w * h >= 0;
            assert(255 * nx * dy <= 255 * 18446744073709551615u128) by (nonlinear_arith)
                requires nx * dy <= 18446744073709551615u128;
        }
        total = total + row;
        dy = dy + 1;
    }
    total
}

impl DHash {
    /// The hash of an image of `width` by `height` pixels with
    /// `channel_count` bytes per pixel, in row-major order.
    pub fn new(bytes: &[u8], width: u32, height: u32, channel_count: u8) -> (r: DHash)
        requires
            bytes@.len() == width * height * channel_count,
        ensures
            r.hash == hash_value(bytes@, width as int, height as int, channel_count as int, 64),
    {
        let w = width as usize;
        let h = height as usize;
        let cc = channel_count as usize;
        let cw = w / 9;
        let ch = h / 8;
        let mut hash: u64 = 0;
        let mut weight: u64 = 1;
        let mut i: usize = 0;
        proof {
            lemma2_to64();
        }
        while i < 64
            invariant
                bytes@.len() == w * h * cc,
                w == width,
                h == height,
                cc == channel_count,
                cw == w / 9,
                ch == h / 8,
                i <= 64,
                weight == pow2(i as nat) || i == 64,
                hash == hash_value(bytes@, w as int, h as int, cc as int, i as nat),
            decreases 64 - i,
        {
            let cy = i / 8;
            let cx = i % 8;
            let left = Self::cell(bytes, w, h, cc, cx, cy);
            let right = Self::cell(bytes, w, h, cc, cx + 1, cy);
            proof {
                lemma_hash_value_bound(bytes@, w as int, h as int, cc as int, i as nat);
                lemma_pow2_bound(i as nat);
                lemma_pow2_bound((i + 1) as nat);
            }
            if left > right {
                hash = hash + weight;
            }
            if i < 63 {
                weight = weight * 2;
            }
            i = i + 1;
        }
        DHash { hash }
    }

    /// Brightness of cell `(cx, cy)`; see `cell_value`.
    fn cell(bytes: &[u8], w: usize, h: usize, cc: usize, cx: usize, cy: usize) -> (r: u128)
        requires
            bytes@.len() == w * h * cc,
            cx < 9,
            cy < 8,
        ensures
            r == cell_value(bytes@, w as int, h as int, cc as int, cx as int, cy as int),
    {
        if cc == 0 {
            return 0;
        }
        let cw = w / 9;
        let ch = h / 8;
        assert(cx * cw + cw <= w) by (nonlinear_arith)
            requires cx < 9, cw == w / 9;
        assert(cy * ch + ch <= h) by (nonlinear_arith)
            requires cy < 8, ch == h / 8;
        let _len = bytes.len();
        proof {
            assert(cw * ch <= w * h) by (nonlinear_arith)
                requires cw <= w, ch <= h;
            assert(w * h <= w * h * cc) by (nonlinear_arith)
                requires cc >= 1, w * h >= 0;
            assert(255 * cw * ch <= 255 * 18446744073709551615u128) by (nonlinear_arith)
                requires cw * ch <= 18446744073709551615u128;
        }
        if cc >= 3 {
            let r = sum_rect(bytes, w, h, cc, 0, cx * cw, cy * ch, cw, ch);
            let g = sum_rect(bytes, w, h, cc, 1, cx * cw, cy * ch, cw, ch);
            let b = sum_rect(bytes, w, h, cc, 2, cx * cw, cy * ch, cw, ch);
            proof {
                lemma_rect_sum_bound(bytes@, w as int, cc as int, 0, (cx * cw) as int, (cy * ch) as int, cw as int, ch as int);
                lemma_rect_sum_bound(bytes@, w as int, cc as int, 1, (cx * cw) as int, (cy * ch) as int, cw as int, ch as int);
                lemma_rect_sum_bound(bytes@, w as int, cc as int, 2, (cx * cw) as int, (cy * ch) as int, cw as int, ch as int);
            }
            299 * r + 587 * g + 114 * b
        } else {
            sum_rect(bytes, w, h, cc, 0, cx * cw, cy * ch, cw, ch)
        }
    }

    /// How many of the 64 bits of the two hashes differ.
    pub fn hamming_distance(&self, other: &Self) -> (r: u32)
        ensures
            r == differing_bits(self.hash, other.hash, 64),
    {
        let mut a = self.hash;
        let mut b = other.hash;
        let mut count: u32 = 0;
        let mut i: u32 = 0;
        proof {
            lemma2_to64();
        }
        while i < 64
            invariant
                i <= 64,
                count == differing_bits(self.hash, other.hash, i as nat),
                count <= i,
                a == self.hash as nat / pow2(i as nat),
                b == other.hash as nat / pow2(i as nat),
            decreases 64 - i,
        {
            proof {
                lemma_pow2_bound(i as nat);
                assert(pow2(i as nat) * 2 == pow2((i + 1) as nat));
                vstd::arithmetic::div_mod::lemma_div_denominator(self.hash as int, pow2(i as nat) as int, 2);
                vstd::arithmetic::div_mod::lemma_div_denominator(other.hash as int, pow2(i as nat) as int, 2);
            }
            if a % 2 != b % 2 {
                count = count + 1;
            }
            a = a / 2;
            b = b / 2;
            i = i + 1;
        }
        count
    }
}

/// Two hashes count as equal when fewer than 11 of their bits differ.
impl PartialEq for DHash {
    fn eq(&self, other: &DHash) -> (r: bool) {
        self.hamming_distance(other) < 11
    }
}

impl vstd::std_specs::cmp::PartialEqSpecImpl for DHash {
    open spec fn obeys_eq_spec() -> bool {
        true
    }

    open spec fn eq_spec(&self, other: &DHash) -> bool {
        differing_bits(self.hash, other.hash, 64) < 11
    }
}

} // verus!
