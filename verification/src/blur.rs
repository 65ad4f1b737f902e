//! Box blur over RGBA pixel data, in two separable passes.
//!
//! A horizontal pass averages each channel over a window of the row, a
//! vertical pass then averages the result over a window of the column.  The
//! window of a pixel reaches `radius` pixels to each side, cut at the edges of
//! the image, so every output channel is the integer mean of the channel over
//! the window.

use vstd::arithmetic::div_mod::lemma_fundamental_div_mod_converse;
use vstd::prelude::*;

verus! {

/// The byte offset of channel `c` of the pixel numbered `p` (row-major).
pub open spec fn byte_index(p: int, c: int) -> int {
    p * 4 + c
}

/// First position of the window around `p` (`p.saturating_sub(r)`).
pub open spec fn window_lo(p: int, r: int) -> int {
    if p >= r {
        p - r
    } else {
        0
    }
}

/// One past the last position of the window around `p`, cut at `n`.
pub open spec fn window_hi(p: int, r: int, n: int) -> int {
    if p + r + 1 <= n {
        p + r + 1
    } else {
        n
    }
}

/// Sum of channel `c` over the pixels `base + lo .. base + hi` of `s`.
pub open spec fn row_sum(s: Seq<u8>, base: int, c: int, lo: int, hi: int) -> int
    decreases hi - lo,
{
    if hi <= lo {
        0
    } else {
        row_sum(s, base, c, lo, hi - 1) + s[byte_index(base + hi - 1, c)]
    }
}

/// Sum of channel `c` over rows `lo .. hi` of column `x` of an image `w` pixels wide.
pub open spec fn col_sum(s: Seq<u8>, w: int, x: int, c: int, lo: int, hi: int) -> int
    decreases hi - lo,
{
    if hi <= lo {
        0
    } else {
        col_sum(s, w, x, c, lo, hi - 1) + s[byte_index((hi - 1) * w + x, c)]
    }
}

/// Mean of channel `c` over the horizontal window of pixel `p`.
pub open spec fn horizontal_average(s: Seq<u8>, w: int, p: int, c: int, r: int) -> int {
    let x = p % w;
    let lo = window_lo(x, r);
    let hi = window_hi(x, r, w);
    row_sum(s, p - x, c, lo, hi) / (hi - lo)
}

/// Mean of channel `c` over the vertical window of pixel `p`.
pub open spec fn vertical_average(s: Seq<u8>, w: int, h: int, p: int, c: int, r: int) -> int {
    let x = p % w;
    let y = p / w;
    let lo = window_lo(y, r);
    let hi = window_hi(y, r, h);
    col_sum(s, w, x, c, lo, hi) / (hi - lo)
}

/// The horizontal pass over `s`, written into a zeroed buffer of the same length.
pub open spec fn horizontal_pass(s: Seq<u8>, w: int, h: int, r: int) -> Seq<u8> {
    Seq::new(
        s.len(),
        |i: int|
            if i < w * h * 4 {
                horizontal_average(s, w, i / 4, i % 4, r) as u8
            } else {
                0u8
            },
    )
}

/// The vertical pass over `t`, written into `s`; bytes past the image keep their value.
pub open spec fn vertical_pass(t: Seq<u8>, s: Seq<u8>, w: int, h: int, r: int) -> Seq<u8> {
    Seq::new(
        s.len(),
        |i: int|
            if i < w * h * 4 {
                vertical_average(t, w, h, i / 4, i % 4, r) as u8
            } else {
                s[i]
            },
    )
}

/// One box blur of `s`: nothing changes when the radius or a dimension is zero.
pub open spec fn blur_once(s: Seq<u8>, w: int, h: int, r: int) -> Seq<u8> {
    if r == 0 || w == 0 || h == 0 {
        s
    } else {
        vertical_pass(horizontal_pass(s, w, h, r), s, w, h, r)
    }
}

/// `n` box blurs of `s` in a row.
pub open spec fn blur_passes(s: Seq<u8>, w: int, h: int, r: int, n: nat) -> Seq<u8>
    decreases n,
{
    if n == 0 {
        s
    } else {
        blur_once(blur_passes(s, w, h, r, (n - 1) as nat), w, h, r)
    }
}

proof fn lemma_row_fits(y: int, w: int, h: int)
    requires
        0 <= y < h,
        0 <= w,
    ensures
        y * w + w <= w * h,
        0 <= y * w,
{
    assert(y * w + w <= w * h) by (nonlinear_arith)
        requires
            0 <= y < h,
            0 <= w,
    ;
    assert(0 <= y * w) by (nonlinear_arith)
        requires
            0 <= y,
            0 <= w,
    ;
}

proof fn lemma_row_sum_bound(s: Seq<u8>, base: int, c: int, lo: int, hi: int)
    requires
        lo <= hi,
        forall|k: int| lo <= k < hi ==> 0 <= #[trigger] byte_index(base + k, c) < s.len(),
    ensures
        0 <= row_sum(s, base, c, lo, hi) <= 255 * (hi - lo),
    decreases hi - lo,
{
    if hi > lo {
        assert(0 <= byte_index(base + (hi - 1), c) < s.len());
        lemma_row_sum_bound(s, base, c, lo, hi - 1);
    }
}

proof fn lemma_col_sum_bound(s: Seq<u8>, w: int, x: int, c: int, lo: int, hi: int)
    requires
        lo <= hi,
        forall|k: int| lo <= k < hi ==> 0 <= #[trigger] byte_index(k * w + x, c) < s.len(),
    ensures
        0 <= col_sum(s, w, x, c, lo, hi) <= 255 * (hi - lo),
    decreases hi - lo,
{
    if hi > lo {
        assert(0 <= byte_index((hi - 1) * w + x, c) < s.len());
        lemma_col_sum_bound(s, w, x, c, lo, hi - 1);
    }
}

/// Every byte of the first `n` pixels is `byte_index(i / 4, i % 4)` of a pixel below `n`.
proof fn lemma_byte_split(i: int, n: int)
    requires
        0 <= i < n * 4,
    ensures
        0 <= i / 4 < n,
        0 <= i % 4 < 4,
        i == byte_index(i / 4, i % 4),
{
}

/// The pixel numbered `y * w + x` sits at column `x` of row `y`.
proof fn lemma_pixel_position(p: int, w: int, y: int, x: int)
    requires
        0 <= x < w,
        p == y * w + x,
    ensures
        p % w == x,
        p / w == y,
{
    lemma_fundamental_div_mod_converse(p, w, y, x);
}

/// The window around `p` for radius `r` in `0 .. n`.
fn window(p: usize, r: u32, n: usize) -> (res: (usize, usize))
    requires
        p < n,
    ensures
        res.0 == window_lo(p as int, r as int),
        res.1 == window_hi(p as int, r as int, n as int),
        res.0 <= p < res.1 <= n,
        res.1 - res.0 <= 2 * (r as int) + 1,
{
    let rr = r as usize;
    let lo = if p >= rr {
        p - rr
    } else {
        0
    };
    let hi = if rr >= n - p {
        n
    } else {
        p + rr + 1
    };
    (lo, hi)
}

/// Horizontal blur pass: each row is blurred independently, from `src` into `dst`.
fn box_blur_horizontal(src: &[u8], dst: &mut [u8], width: usize, height: usize, radius: u32)
    requires
        width * height * 4 <= src@.len(),
        width * height * 4 <= old(dst)@.len(),
    ensures
        final(dst)@.len() == old(dst)@.len(),
        forall|p: int, c: int|
            0 <= p < width * height && 0 <= c < 4 ==> final(dst)@[#[trigger] byte_index(p, c)]
                == horizontal_average(src@, width as int, p, c, radius as int) as u8,
        forall|i: int|
            width * height * 4 <= i < old(dst)@.len() ==> final(dst)@[i] == old(dst)@[i],
{
    let ghost w = width as int;
    let ghost h = height as int;
    let ghost r = radius as int;
    if width == 0 {
        assert(width * height == 0);
        return;
    }
    let src_len = src.len();
    assert(src_len == src@.len());
    assert(width * height <= width * height * 4) by (nonlinear_arith)
        requires
            width * height >= 0,
    ;
    let n = width * height;
    let mut p: usize = 0;
    let mut x: usize = 0;
    let mut base: usize = 0;
    let ghost mut y: int = 0;
    while p < n
        invariant
            n == w * h,
            w == width,
            h == height,
            r == radius,
            w > 0,
            n * 4 <= src@.len(),
            src@.len() <= usize::MAX,
            n * 4 <= dst@.len(),
            dst@.len() == old(dst)@.len(),
            p <= n,
            p == y * w + x,
            base == y * w,
            0 <= x < w,
            0 <= y,
            p < n ==> y < h,
            forall|q: int, c: int|
                0 <= q < p && 0 <= c < 4 ==> dst@[#[trigger] byte_index(q, c)]
                    == horizontal_average(src@, w, q, c, r) as u8,
            forall|i: int| p * 4 <= i < dst@.len() ==> dst@[i] == old(dst)@[i],
        decreases n - p,
    {
        proof {
            lemma_row_fits(y, w, h);
            lemma_pixel_position(p as int, w, y, x as int);
        }
        let (lo, hi) = window(x, radius, width);
        let mut r_sum: u64 = 0;
        let mut g_sum: u64 = 0;
        let mut b_sum: u64 = 0;
        let mut a_sum: u64 = 0;
        let mut bx = lo;
        while bx < hi
            invariant
                lo <= bx <= hi <= width,
                hi - lo <= 2 * r + 1,
                r <= u32::MAX,
                base + width <= n,
                n * 4 <= src@.len(),
                src@.len() <= usize::MAX,
                r_sum == row_sum(src@, base as int, 0, lo as int, bx as int),
                g_sum == row_sum(src@, base as int, 1, lo as int, bx as int),
                b_sum == row_sum(src@, base as int, 2, lo as int, bx as int),
                a_sum == row_sum(src@, base as int, 3, lo as int, bx as int),
                r_sum <= 255 * (bx - lo),
                g_sum <= 255 * (bx - lo),
                b_sum <= 255 * (bx - lo),
                a_sum <= 255 * (bx - lo),
            decreases hi - bx,
        {
            let idx = (base + bx) * 4;
            assert(idx == byte_index(base + bx, 0));
            r_sum = r_sum + src[idx] as u64;
            g_sum = g_sum + src[idx + 1] as u64;
            b_sum = b_sum + src[idx + 2] as u64;
            a_sum = a_sum + src[idx + 3] as u64;
            assert(idx + 1 == byte_index(base + bx, 1));
            assert(idx + 2 == byte_index(base + bx, 2));
            assert(idx + 3 == byte_index(base + bx, 3));
            bx = bx + 1;
        }
        let count = (hi - lo) as u64;
        let dst_idx = p * 4;
        dst[dst_idx] = (r_sum / count) as u8;
        dst[dst_idx + 1] = (g_sum / count) as u8;
        dst[dst_idx + 2] = (b_sum / count) as u8;
        dst[dst_idx + 3] = (a_sum / count) as u8;
        proof {
            assert(p - x == base);
            assert forall|q: int, c: int|
                0 <= q < p + 1 && 0 <= c < 4 implies dst@[#[trigger] byte_index(q, c)]
                == horizontal_average(src@, w, q, c, r) as u8 by {
                if q == p {
                    assert(byte_index(q, c) == dst_idx + c);
                } else {
                    assert(byte_index(q, c) < p * 4);
                }
            }
        }
        p = p + 1;
        if x + 1 == width {
            x = 0;
            base = base + width;
            proof {
                y = y + 1;
                assert(base == y * w) by (nonlinear_arith)
                    requires
                        base == (y - 1) * w + w,
                ;
                if p < n {
                    assert(y < h) by (nonlinear_arith)
                        requires
                            p == y * w,
                            p < n,
                            n == w * h,
                            w > 0,
                    ;
                }
            }
        } else {
            x = x + 1;
        }
    }
}

/// Vertical blur pass: each column is blurred independently, from `src` into `dst`.
fn box_blur_vertical(src: &[u8], dst: &mut [u8], width: usize, height: usize, radius: u32)
    requires
        width * height * 4 <= src@.len(),
        width * height * 4 <= old(dst)@.len(),
    ensures
        final(dst)@.len() == old(dst)@.len(),
        forall|p: int, c: int|
            0 <= p < width * height && 0 <= c < 4 ==> final(dst)@[#[trigger] byte_index(p, c)]
                == vertical_average(src@, width as int, height as int, p, c, radius as int) as u8,
        forall|i: int|
            width * height * 4 <= i < old(dst)@.len() ==> final(dst)@[i] == old(dst)@[i],
{
    let ghost w = width as int;
    let ghost h = height as int;
    let ghost r = radius as int;
    if width == 0 {
        assert(width * height == 0);
        return;
    }
    let src_len = src.len();
    assert(src_len == src@.len());
    assert(width * height <= width * height * 4) by (nonlinear_arith)
        requires
            width * height >= 0,
    ;
    let n = width * height;
    let mut p: usize = 0;
    let mut x: usize = 0;
    let mut y: usize = 0;
    while p < n
        invariant
            n == w * h,
            w == width,
            h == height,
            r == radius,
            w > 0,
            n * 4 <= src@.len(),
            src@.len() <= usize::MAX,
            n * 4 <= dst@.len(),
            dst@.len() == old(dst)@.len(),
            p <= n,
            p == y * w + x,
            0 <= x < w,
            p < n ==> y < h,
            forall|q: int, c: int|
                0 <= q < p && 0 <= c < 4 ==> dst@[#[trigger] byte_index(q, c)]
                    == vertical_average(src@, w, h, q, c, r) as u8,
            forall|i: int| p * 4 <= i < dst@.len() ==> dst@[i] == old(dst)@[i],
        decreases n - p,
    {
        proof {
            lemma_pixel_position(p as int, w, y as int, x as int);
        }
        let (lo, hi) = window(y, radius, height);
        proof {
            lemma_row_fits(lo as int, w, h);
        }
        let mut r_sum: u64 = 0;
        let mut g_sum: u64 = 0;
        let mut b_sum: u64 = 0;
        let mut a_sum: u64 = 0;
        let mut by = lo;
        let mut col_base = lo * width;
        while by < hi
            invariant
                lo <= by <= hi <= height,
                hi - lo <= 2 * r + 1,
                r <= u32::MAX,
                col_base == by * w,
                w == width,
                h == height,
                0 <= x < w,
                n == w * h,
                n * 4 <= src@.len(),
                src@.len() <= usize::MAX,
                r_sum == col_sum(src@, w, x as int, 0, lo as int, by as int),
                g_sum == col_sum(src@, w, x as int, 1, lo as int, by as int),
                b_sum == col_sum(src@, w, x as int, 2, lo as int, by as int),
                a_sum == col_sum(src@, w, x as int, 3, lo as int, by as int),
                r_sum <= 255 * (by - lo),
                g_sum <= 255 * (by - lo),
                b_sum <= 255 * (by - lo),
                a_sum <= 255 * (by - lo),
            decreases hi - by,
        {
            proof {
                lemma_row_fits(by as int, w, h);
            }
            let idx = (col_base + x) * 4;
            assert(idx == byte_index(by * w + x, 0));
            r_sum = r_sum + src[idx] as u64;
            g_sum = g_sum + src[idx + 1] as u64;
            b_sum = b_sum + src[idx + 2] as u64;
            a_sum = a_sum + src[idx + 3] as u64;
            assert(idx + 1 == byte_index(by * w + x, 1));
            assert(idx + 2 == byte_index(by * w + x, 2));
            assert(idx + 3 == byte_index(by * w + x, 3));
            col_base = col_base + width;
            by = by + 1;
            assert(col_base == by * w) by (nonlinear_arith)
                requires
                    col_base == (by - 1) * w + w,
            ;
        }
        let count = (hi - lo) as u64;
        let dst_idx = p * 4;
        dst[dst_idx] = (r_sum / count) as u8;
        dst[dst_idx + 1] = (g_sum / count) as u8;
        dst[dst_idx + 2] = (b_sum / count) as u8;
        dst[dst_idx + 3] = (a_sum / count) as u8;
        proof {
            assert forall|q: int, c: int|
                0 <= q < p + 1 && 0 <= c < 4 implies dst@[#[trigger] byte_index(q, c)]
                == vertical_average(src@, w, h, q, c, r) as u8 by {
                if q == p {
                    assert(byte_index(q, c) == dst_idx + c);
                } else {
                    assert(byte_index(q, c) < p * 4);
                }
            }
        }
        p = p + 1;
        if x + 1 == width {
            x = 0;
            y = y + 1;
            proof {
                assert(p == y * w + 0) by (nonlinear_arith)
                    requires
                        p == (y - 1) * w + (w - 1) + 1,
                ;
                if p < n {
                    assert(y < h) by (nonlinear_arith)
                        requires
                            p == y * w,
                            p < n,
                            n == w * h,
                            w > 0,
                    ;
                }
            }
        } else {
            x = x + 1;
        }
    }
}

/// Applies a box blur to RGBA pixel data in place.
///
/// `data` holds `width * height` pixels of four bytes each, row by row.  Each
/// channel becomes the mean over the horizontal window of `radius` pixels to
/// each side, and then over the vertical window likewise.  Nothing changes when
/// `radius`, `width` or `height` is zero.
pub fn box_blur(data: &mut [u8], width: usize, height: usize, radius: u32)
    requires
        radius == 0 || width == 0 || height == 0 || width * height * 4 <= old(data)@.len(),
    ensures
        final(data)@ == blur_once(old(data)@, width as int, height as int, radius as int),
{
    if radius == 0 || width == 0 || height == 0 {
        return;
    }
    let ghost s = data@;
    let ghost w = width as int;
    let ghost h = height as int;
    let ghost r = radius as int;
    let mut temp = vec![0u8; data.len()];
    box_blur_horizontal(data, temp.as_mut_slice(), width, height, radius);
    proof {
        let hp = horizontal_pass(s, w, h, r);
        assert forall|i: int| 0 <= i < temp@.len() implies temp@[i] == hp[i] by {
            if i < w * h * 4 {
                lemma_byte_split(i, w * h);
            }
        }
        assert(temp@ =~= hp);
    }
    box_blur_vertical(temp.as_slice(), data, width, height, radius);
    proof {
        let vp = vertical_pass(temp@, s, w, h, r);
        assert forall|i: int| 0 <= i < data@.len() implies data@[i] == vp[i] by {
            if i < w * h * 4 {
                lemma_byte_split(i, w * h);
            }
        }
        assert(data@ =~= vp);
    }
}

/// Applies `passes` box blurs in a row; several passes approach a Gaussian blur.
pub fn box_blur_multi_pass(data: &mut [u8], width: usize, height: usize, radius: u32, passes: u32)
    requires
        passes == 0 || radius == 0 || width == 0 || height == 0 || width * height * 4 <= old(
            data,
        )@.len(),
    ensures
        final(data)@.len() == old(data)@.len(),
        final(data)@ == blur_passes(
            old(data)@,
            width as int,
            height as int,
            radius as int,
            passes as nat,
        ),
{
    let ghost s = data@;
    let mut i: u32 = 0;
    while i < passes
        invariant
            i <= passes,
            data@.len() == s.len(),
            passes == 0 || radius == 0 || width == 0 || height == 0 || width * height * 4 <= s.len(),
            data@ == blur_passes(s, width as int, height as int, radius as int, i as nat),
        decreases passes - i,
    {
        box_blur(data, width, height, radius);
        proof {
            if !(radius == 0 || width == 0 || height == 0) {
                assert(data@.len() == s.len());
            }
        }
        i = i + 1;
    }
}

/// Whether the first `n` pixels of `s` all have the colour of the first pixel.
pub open spec fn is_uniform(s: Seq<u8>, n: int) -> bool {
    forall|p: int, c: int|
        0 <= p < n && 0 <= c < 4 ==> s[#[trigger] byte_index(p, c)] == s[byte_index(0, c)]
}

proof fn lemma_row_sum_uniform(s: Seq<u8>, base: int, c: int, lo: int, hi: int, v: u8)
    requires
        lo <= hi,
        forall|k: int| lo <= k < hi ==> s[#[trigger] byte_index(base + k, c)] == v,
    ensures
        row_sum(s, base, c, lo, hi) == (hi - lo) * v,
    decreases hi - lo,
{
    if hi > lo {
        assert(s[byte_index(base + (hi - 1), c)] == v);
        lemma_row_sum_uniform(s, base, c, lo, hi - 1, v);
        let vi = v as int;
        assert((hi - 1 - lo) * vi + vi == (hi - lo) * vi) by (nonlinear_arith);
        assert(row_sum(s, base, c, lo, hi) == row_sum(s, base, c, lo, hi - 1) + v);
    } else {
        let vi = v as int;
        assert((hi - lo) * vi == 0) by (nonlinear_arith)
            requires
                hi == lo,
        ;
    }
}

proof fn lemma_col_sum_uniform(s: Seq<u8>, w: int, x: int, c: int, lo: int, hi: int, v: u8)
    requires
        lo <= hi,
        forall|k: int| lo <= k < hi ==> s[#[trigger] byte_index(k * w + x, c)] == v,
    ensures
        col_sum(s, w, x, c, lo, hi) == (hi - lo) * v,
    decreases hi - lo,
{
    if hi > lo {
        assert(s[byte_index((hi - 1) * w + x, c)] == v);
        lemma_col_sum_uniform(s, w, x, c, lo, hi - 1, v);
        let vi = v as int;
        assert((hi - 1 - lo) * vi + vi == (hi - lo) * vi) by (nonlinear_arith);
        assert(col_sum(s, w, x, c, lo, hi) == col_sum(s, w, x, c, lo, hi - 1) + v);
    } else {
        let vi = v as int;
        assert((hi - lo) * vi == 0) by (nonlinear_arith)
            requires
                hi == lo,
        ;
    }
}

proof fn lemma_mean_of_equal(k: int, v: int)
    requires
        k > 0,
        v >= 0,
    ensures
        (k * v) / k == v,
{
    vstd::arithmetic::div_mod::lemma_div_by_multiple(v, k);
    assert(k * v == v * k) by (nonlinear_arith);
}

/// Whether channel `c` has the same value in the first `n` pixels of `s`.
pub open spec fn channel_is_uniform(s: Seq<u8>, n: int, c: int) -> bool {
    forall|p: int| 0 <= p < n ==> s[#[trigger] byte_index(p, c)] == s[byte_index(0, c)]
}

proof fn lemma_pixel_row_col(p: int, w: int, h: int)
    requires
        0 <= p < w * h,
        w > 0,
    ensures
        p == (p / w) * w + p % w,
        0 <= p % w < w,
        0 <= p / w < h,
{
    let x = p % w;
    let y = p / w;
    vstd::arithmetic::div_mod::lemma_fundamental_div_mod(p, w);
    assert(w * (p / w) == (p / w) * w) by (nonlinear_arith);
    assert(0 <= y < h) by (nonlinear_arith)
        requires
            p == y * w + x,
            0 <= x < w,
            0 <= p < w * h,
            w > 0,
    ;
}

/// A channel that has one value over the whole image keeps it when the image
/// is blurred; so an opaque image stays opaque.
pub proof fn lemma_uniform_channel_is_kept(s: Seq<u8>, w: int, h: int, r: int, c: int)
    requires
        0 <= w,
        0 <= h,
        0 <= r,
        0 <= c < 4,
        w * h * 4 <= s.len(),
        channel_is_uniform(s, w * h, c),
    ensures
        channel_is_uniform(blur_once(s, w, h, r), w * h, c),
        w * h > 0 ==> blur_once(s, w, h, r)[byte_index(0, c)] == s[byte_index(0, c)],
{
    if r == 0 || w == 0 || h == 0 {
        return;
    }
    let n = w * h;
    let v = s[byte_index(0, c)];
    let t = horizontal_pass(s, w, h, r);
    assert forall|p: int| 0 <= p < n implies t[#[trigger] byte_index(p, c)] == v by {
        let i = byte_index(p, c);
        lemma_byte_split(i, n);
        assert(i / 4 == p && i % 4 == c);
        lemma_pixel_row_col(p, w, h);
        let x = p % w;
        let y = p / w;
        let lo = window_lo(x, r);
        let hi = window_hi(x, r, w);
        lemma_row_fits(y, w, h);
        assert forall|k: int| lo <= k < hi implies s[#[trigger] byte_index((p - x) + k, c)] == v by {
            assert(0 <= (p - x) + k < n);
        }
        lemma_row_sum_uniform(s, p - x, c, lo, hi, v);
        lemma_mean_of_equal(hi - lo, v as int);
    }
    let u = vertical_pass(t, s, w, h, r);
    assert forall|p: int| 0 <= p < n implies u[#[trigger] byte_index(p, c)] == v by {
        let i = byte_index(p, c);
        lemma_byte_split(i, n);
        assert(i / 4 == p && i % 4 == c);
        lemma_pixel_row_col(p, w, h);
        let x = p % w;
        let y = p / w;
        let lo = window_lo(y, r);
        let hi = window_hi(y, r, h);
        assert forall|k: int| lo <= k < hi implies t[#[trigger] byte_index(k * w + x, c)] == v by {
            lemma_row_fits(k, w, h);
            assert(0 <= k * w + x < n);
        }
        lemma_col_sum_uniform(t, w, x, c, lo, hi, v);
        lemma_mean_of_equal(hi - lo, v as int);
    }
    assert(n > 0) by (nonlinear_arith)
        requires
            w > 0,
            h > 0,
            n == w * h,
    ;
    assert(0 <= 0 < n);
    assert(u[byte_index(0, c)] == v);
}

/// Blurring an image whose pixels all have one colour leaves it unchanged.
///
/// A single pixel is such an image, so a one-pixel image is never changed.
pub proof fn lemma_uniform_image_is_fixed(s: Seq<u8>, w: int, h: int, r: int)
    requires
        0 <= w,
        0 <= h,
        0 <= r,
        w * h * 4 <= s.len(),
        is_uniform(s, w * h),
    ensures
        blur_once(s, w, h, r) == s,
{
    if r == 0 || w == 0 || h == 0 {
        return;
    }
    let n = w * h;
    let u = blur_once(s, w, h, r);
    assert forall|c: int| 0 <= c < 4 implies channel_is_uniform(s, n, c) by {
        assert forall|p: int| 0 <= p < n implies s[#[trigger] byte_index(p, c)] == s[byte_index(
            0,
            c,
        )] by {
            assert(s[byte_index(p, c)] == s[byte_index(0, c)]);
        }
    }
    assert forall|i: int| 0 <= i < s.len() implies u[i] == s[i] by {
        if i < n * 4 {
            lemma_byte_split(i, n);
            let p = i / 4;
            let c = i % 4;
            lemma_uniform_channel_is_kept(s, w, h, r, c);
            assert(u[byte_index(p, c)] == u[byte_index(0, c)]);
            assert(s[byte_index(p, c)] == s[byte_index(0, c)]);
        }
    }
    assert(u =~= s);
}

/// Blurring `m` times and then `n` times is blurring `m + n` times.
pub proof fn lemma_blur_passes_compose(s: Seq<u8>, w: int, h: int, r: int, m: nat, n: nat)
    ensures
        blur_passes(blur_passes(s, w, h, r, m), w, h, r, n) == blur_passes(s, w, h, r, m + n),
    decreases n,
{
    if n > 0 {
        lemma_blur_passes_compose(s, w, h, r, m, (n - 1) as nat);
        assert((m + n - 1) as nat == (m + (n - 1)) as nat);
    }
}

/// Any number of blurs of an image of one colour leaves it unchanged.
pub proof fn lemma_uniform_image_is_fixed_by_passes(s: Seq<u8>, w: int, h: int, r: int, n: nat)
    requires
        0 <= w,
        0 <= h,
        0 <= r,
        w * h * 4 <= s.len(),
        is_uniform(s, w * h),
    ensures
        blur_passes(s, w, h, r, n) == s,
    decreases n,
{
    if n > 0 {
        lemma_uniform_image_is_fixed_by_passes(s, w, h, r, (n - 1) as nat);
        lemma_uniform_image_is_fixed(s, w, h, r);
    }
}

} // verus!
