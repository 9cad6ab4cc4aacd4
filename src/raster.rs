//! Row-major RGB rasters: indexing and copying rectangles out of them.
use vstd::prelude::*;
use vstd::arithmetic::div_mod::{lemma_fundamental_div_mod, lemma_fundamental_div_mod_converse};

verus! {

/// Index of the first byte of pixel (`x`, `y`) in a raster `stride` pixels wide.
pub open spec fn pixel_index(stride: int, x: int, y: int) -> int {
    (y * stride + x) * 3
}

/// The bytes of the `w` by `h` rectangle at (`x`, `y`) of a raster `stride`
/// pixels wide, row after row.
pub open spec fn rect_bytes(data: Seq<u8>, stride: int, x: int, y: int, w: int, h: int) -> Seq<u8> {
    Seq::new(
        (w * h * 3) as nat,
        |i: int| data[((y + i / (w * 3)) * stride + x) * 3 + i % (w * 3)],
    )
}

/// The rectangle lies inside a raster of `len` bytes, `stride` pixels wide.
pub open spec fn rect_fits(len: int, stride: int, x: int, y: int, w: int, h: int) -> bool {
    &&& 0 <= x && 0 <= y && 0 <= w && 0 <= h
    &&& x + w <= stride
    &&& (y + h) * stride * 3 <= len
}

/// The three bytes of a pixel inside the raster are inside the byte buffer.
pub proof fn lemma_pixel_in_bounds(stride: int, height: int, x: int, y: int)
    requires
        0 <= x < stride,
        0 <= y < height,
    ensures
        0 <= pixel_index(stride, x, y),
        pixel_index(stride, x, y) + 3 <= stride * height * 3,
        y * stride <= stride * height,
{
    assert(0 <= y * stride) by (nonlinear_arith)
        requires 0 <= y, 0 <= stride;
    assert(y * stride + x + 1 <= stride * height) by (nonlinear_arith)
        requires 0 <= x < stride, 0 <= y < height;
}

/// Byte `k` of row `dy` of a rectangle is the matching byte of the raster.
pub proof fn lemma_rect_index(data: Seq<u8>, stride: int, x: int, y: int, w: int, h: int, dy: int, k: int)
    requires
        0 <= dy < h,
        0 <= k < w * 3,
    ensures
        0 <= dy * (w * 3) + k < w * h * 3,
        rect_bytes(data, stride, x, y, w, h)[dy * (w * 3) + k]
            == data[((y + dy) * stride + x) * 3 + k],
{
    let i = dy * (w * 3) + k;
    lemma_fundamental_div_mod_converse(i, w * 3, dy, k);
    assert(0 <= dy * (w * 3)) by (nonlinear_arith)
        requires 0 <= dy, 0 <= w * 3;
    assert(dy * (w * 3) + k < w * h * 3) by (nonlinear_arith)
        requires 0 <= dy < h, 0 <= k < w * 3;
}

/// Copies the `w` by `h` rectangle at (`x`, `y`) out of a raster `stride`
/// pixels wide.
pub fn extract_rect(data: &Vec<u8>, stride: usize, x: usize, y: usize, w: usize, h: usize) -> (r: Vec<u8>)
    requires
        rect_fits(data@.len() as int, stride as int, x as int, y as int, w as int, h as int),
    ensures
        r@ == rect_bytes(data@, stride as int, x as int, y as int, w as int, h as int),
{
    let ghost want = rect_bytes(data@, stride as int, x as int, y as int, w as int, h as int);
    let len = data.len();
    if w == 0 {
        assert(w * h * 3 == 0) by (nonlinear_arith)
            requires w == 0;
        assert(want =~= Seq::<u8>::empty());
        return Vec::new();
    }
    assert(y + h <= (y + h) * stride * 3) by (nonlinear_arith)
        requires 0 <= y, 0 <= h, 1 <= stride;
    assert(w * h * 3 <= (y + h) * stride * 3) by (nonlinear_arith)
        requires 0 <= x, 0 <= y, 0 <= w, 0 <= h, x + w <= stride;
    let mut out: Vec<u8> = Vec::new();
    let mut dy: usize = 0;
    while dy < h
        invariant
            0 <= dy <= h,
            len == data@.len(),
            rect_fits(len as int, stride as int, x as int, y as int, w as int, h as int),
            want == rect_bytes(data@, stride as int, x as int, y as int, w as int, h as int),
            out@.len() == dy * (w * 3),
            want.len() == w * h * 3,
            dy * (w * 3) <= w * h * 3,
            forall|i: int| 0 <= i < out@.len() ==> out@[i] == #[trigger] want[i],
            w * h * 3 <= len,
            y + h <= len,
            1 <= w,
        decreases h - dy,
    {
        assert((y + dy) * stride + x + w <= (y + h) * stride) by (nonlinear_arith)
            requires dy < h, x + w <= stride, 0 <= stride, 0 <= y, 0 <= dy;
        assert(0 <= (y + dy) * stride) by (nonlinear_arith)
            requires 0 <= y, 0 <= dy, 0 <= stride;
        assert(((y + dy) * stride + x + w) * 3 <= len) by (nonlinear_arith)
            requires
                (y + dy) * stride + x + w <= (y + h) * stride,
                (y + h) * stride * 3 <= len;
        assert(w * 3 <= w * h * 3) by (nonlinear_arith)
            requires 0 <= w, 1 <= h;
        assert(dy * (w * 3) + w * 3 <= w * h * 3) by (nonlinear_arith)
            requires 0 <= w, dy < h;
        let row_len: usize = w * 3;
        let start: usize = ((y + dy) * stride + x) * 3;
        let mut k: usize = 0;
        while k < row_len
            invariant
                0 <= dy < h,
                0 <= k <= row_len,
                row_len == w * 3,
                len == data@.len(),
                start == ((y + dy) * stride + x) * 3,
                start + row_len <= len,
                want == rect_bytes(data@, stride as int, x as int, y as int, w as int, h as int),
                want.len() == w * h * 3,
                dy * (w * 3) + w * 3 <= w * h * 3,
                out@.len() == dy * row_len + k,
                forall|i: int| 0 <= i < out@.len() ==> out@[i] == #[trigger] want[i],
            decreases row_len - k,
        {
            proof {
                lemma_rect_index(data@, stride as int, x as int, y as int, w as int, h as int, dy as int, k as int);
            }
            out.push(data[start + k]);
            k = k + 1;
        }
        assert((dy + 1) * (w * 3) == dy * (w * 3) + w * 3) by (nonlinear_arith);
        assert((dy + 1) * (w * 3) <= w * h * 3) by (nonlinear_arith)
            requires 0 <= w, dy + 1 <= h;
        dy = dy + 1;
    }
    assert(out@.len() == want.len()) by (nonlinear_arith)
        requires out@.len() == h * (w * 3), want.len() == w * h * 3;
    assert(out@ =~= want);
    out
}

/// Byte `i` of a raster `stride` pixels wide lies in the `w` by `h`
/// rectangle at (`x`, `y`).
pub open spec fn in_rect(stride: int, x: int, y: int, w: int, h: int, i: int) -> bool {
    let px = (i / 3) % stride;
    let py = (i / 3) / stride;
    x <= px < x + w && y <= py < y + h
}

/// The byte of `src`, a `w` pixels wide rectangle placed at (`x`, `y`),
/// that covers byte `i` of the raster.
pub open spec fn src_byte(src: Seq<u8>, stride: int, x: int, y: int, w: int, i: int) -> u8 {
    let px = (i / 3) % stride;
    let py = (i / 3) / stride;
    src[((py - y) * w + (px - x)) * 3 + i % 3]
}

/// The raster `data`, `stride` pixels wide, with the `w` by `h` rectangle at
/// (`x`, `y`) replaced by the rows of `src`.
pub open spec fn paste(data: Seq<u8>, stride: int, x: int, y: int, w: int, h: int, src: Seq<u8>) -> Seq<u8> {
    Seq::new(
        data.len(),
        |i: int| if in_rect(stride, x, y, w, h, i) { src_byte(src, stride, x, y, w, i) } else { data[i] },
    )
}

/// The coordinates of the byte at channel `ch` of pixel (`px`, `py`).
proof fn lemma_decode(stride: int, px: int, py: int, ch: int)
    requires
        0 <= px < stride,
        0 <= py,
        0 <= ch < 3,
    ensures
        ((py * stride + px) * 3 + ch) / 3 == py * stride + px,
        ((py * stride + px) * 3 + ch) % 3 == ch,
        (py * stride + px) % stride == px,
        (py * stride + px) / stride == py,
{
    let q = py * stride + px;
    lemma_fundamental_div_mod_converse(q * 3 + ch, 3, q, ch);
    lemma_fundamental_div_mod_converse(q, stride, py, px);
}

/// Every byte index names a pixel and a channel.
proof fn lemma_encode(stride: int, i: int)
    requires
        0 < stride,
        0 <= i,
    ensures
        i == (((i / 3) / stride) * stride + (i / 3) % stride) * 3 + i % 3,
        0 <= (i / 3) % stride < stride,
        0 <= (i / 3) / stride,
        0 <= i % 3 < 3,
{
    lemma_fundamental_div_mod(i, 3);
    lemma_fundamental_div_mod(i / 3, stride);
    let q = i / 3;
    assert(i == ((q / stride) * stride + q % stride) * 3 + i % 3) by (nonlinear_arith)
        requires i == 3 * q + i % 3, q == stride * (q / stride) + q % stride;
}

/// Writes the rows of `src` over the `w` by `h` rectangle at (`x`, `y`) of a
/// raster `stride` pixels wide.
pub fn paste_rect(data: &mut Vec<u8>, stride: usize, x: usize, y: usize, w: usize, h: usize, src: &Vec<u8>)
    requires
        rect_fits(old(data)@.len() as int, stride as int, x as int, y as int, w as int, h as int),
        src@.len() == w * h * 3,
    ensures
        final(data)@ == paste(old(data)@, stride as int, x as int, y as int, w as int, h as int, src@),
{
    let ghost old_data = data@;
    let ghost (s, ix, iy, iw, ih) = (stride as int, x as int, y as int, w as int, h as int);
    let len = data.len();
    let src_len = src.len();
    if w == 0 {
        assert(data@ =~= paste(old_data, s, ix, iy, iw, ih, src@));
        return;
    }
    assert(y + h <= (y + h) * stride * 3) by (nonlinear_arith)
        requires 0 <= y, 0 <= h, 1 <= stride;
    let mut dy: usize = 0;
    while dy < h
        invariant
            s == stride, ix == x, iy == y, iw == w, ih == h,
            1 <= w <= stride,
            0 <= dy <= h,
            len == data@.len(),
            len == old_data.len(),
            y + h <= len,
            rect_fits(len as int, s, ix, iy, iw, ih),
            src@.len() == w * h * 3,
            src_len == src@.len(),
            forall|i: int| 0 <= i < len ==> #[trigger] data@[i] == if in_rect(s, ix, iy, iw, ih, i) && (i / 3) / s < iy + dy {
                src_byte(src@, s, ix, iy, iw, i)
            } else {
                old_data[i]
            },
        decreases h - dy,
    {
        assert((y + dy) * stride + x + w <= (y + h) * stride) by (nonlinear_arith)
            requires dy < h, x + w <= stride, 0 <= stride, 0 <= y, 0 <= dy;
        assert(0 <= (y + dy) * stride) by (nonlinear_arith)
            requires 0 <= y, 0 <= dy, 0 <= stride;
        assert(((y + dy) * stride + x + w) * 3 <= len) by (nonlinear_arith)
            requires
                (y + dy) * stride + x + w <= (y + h) * stride,
                (y + h) * stride * 3 <= len;
        assert(dy * (w * 3) + w * 3 <= w * h * 3) by (nonlinear_arith)
            requires 0 <= w, dy < h;
        let row_len: usize = w * 3;
        let start: usize = ((y + dy) * stride + x) * 3;
        let src_start: usize = dy * row_len;
        let mut k: usize = 0;
        while k < row_len
            invariant
                s == stride, ix == x, iy == y, iw == w, ih == h,
                1 <= w <= stride,
                0 <= dy < h,
                0 <= k <= row_len,
                row_len == w * 3,
                len == data@.len(),
                len == old_data.len(),
                start == ((y + dy) * stride + x) * 3,
                start + row_len <= len,
                src_start == dy * row_len,
                src_start + row_len <= src@.len(),
                src_len == src@.len(),
                rect_fits(len as int, s, ix, iy, iw, ih),
                src@.len() == w * h * 3,
                forall|i: int| 0 <= i < len ==> #[trigger] data@[i] == if in_rect(s, ix, iy, iw, ih, i) && (
                    (i / 3) / s < iy + dy || ((i / 3) / s == iy + dy && ((i / 3) % s - ix) * 3 + i % 3 < k)) {
                    src_byte(src@, s, ix, iy, iw, i)
                } else {
                    old_data[i]
                },
            decreases row_len - k,
        {
            let ghost j = start + k;
            proof {
                let q = k as int / 3;
                let ch = k as int % 3;
                lemma_fundamental_div_mod(k as int, 3);
                assert(0 <= q < iw) by (nonlinear_arith)
                    requires k == 3 * q + ch, 0 <= ch < 3, 0 <= k < iw * 3;
                assert(j == ((iy + dy) * s + (ix + q)) * 3 + ch) by (nonlinear_arith)
                    requires j == ((iy + dy) * s + ix) * 3 + k, k == 3 * q + ch;
                lemma_decode(s, ix + q, iy + dy, ch);
                assert(src_byte(src@, s, ix, iy, iw, j) == src@[dy * (iw * 3) + k]) by {
                    assert(((dy * iw) + q) * 3 + ch == dy * (iw * 3) + k) by (nonlinear_arith)
                        requires k == 3 * q + ch;
                }
                assert(in_rect(s, ix, iy, iw, ih, j));
                assert forall|i: int| 0 <= i < len && i != j implies (in_rect(s, ix, iy, iw, ih, i) && (
                    (i / 3) / s < iy + dy || ((i / 3) / s == iy + dy && ((i / 3) % s - ix) * 3 + i % 3 < k + 1)))
                    == (in_rect(s, ix, iy, iw, ih, i) && (
                    (i / 3) / s < iy + dy || ((i / 3) / s == iy + dy && ((i / 3) % s - ix) * 3 + i % 3 < k))) by {
                    lemma_encode(s, i);
                    if (i / 3) / s == iy + dy && ((i / 3) % s - ix) * 3 + i % 3 == k {
                        let px = (i / 3) % s;
                        assert(px - ix == q && i % 3 == ch) by (nonlinear_arith)
                            requires (px - ix) * 3 + i % 3 == k, k == 3 * q + ch, 0 <= i % 3 < 3, 0 <= ch < 3;
                        assert(i == j);
                    }
                }
            }
            data[start + k] = src[src_start + k];
            k = k + 1;
        }
        proof {
            assert forall|i: int| 0 <= i < len implies (in_rect(s, ix, iy, iw, ih, i) && (
                (i / 3) / s < iy + dy || ((i / 3) / s == iy + dy && ((i / 3) % s - ix) * 3 + i % 3 < k)))
                == (in_rect(s, ix, iy, iw, ih, i) && (i / 3) / s < iy + dy + 1) by {
                lemma_encode(s, i);
                if in_rect(s, ix, iy, iw, ih, i) && (i / 3) / s == iy + dy {
                    let px = (i / 3) % s;
                    assert((px - ix) * 3 + i % 3 < k) by (nonlinear_arith)
                        requires px - ix < iw, 0 <= i % 3 < 3, k == iw * 3;
                }
            }
        }
        dy = dy + 1;
    }
    assert(data@ =~= paste(old_data, s, ix, iy, iw, ih, src@));
}

} // verus!
