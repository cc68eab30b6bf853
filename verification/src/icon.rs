//! Turning the pixels the shell hands back for an executable's icon into
//! the straight-alpha, top-down BGRA buffer the drawer draws.
use vstd::prelude::*;

verus! {

/// How the pixels of a 32-bit DIB section lie in memory.
#[derive(Debug, Clone, Copy, PartialEq, Eq, Structural)]
pub struct DibLayout {
    pub width: usize,
    pub height: usize,
    /// Bytes from the start of one row to the start of the next.
    pub stride: usize,
    /// Row 0 in memory is the bottom row of the picture.
    pub bottom_up: bool,
}

/// The layout of a DIB section from its header fields, or `None` when it
/// cannot be copied: the header could not be read whole, there are no
/// pixel bits, the pixels are not 32 bits, or the picture is empty.
/// Negative widths count as zero; a positive header height means the rows
/// are stored bottom-up.
pub open spec fn dib_layout_spec(
    header_complete: bool,
    has_bits: bool,
    bits_per_pixel: u16,
    width: i32,
    height: i32,
    width_bytes: i32,
    header_height: i32,
) -> Option<DibLayout> {
    let w: int = if width < 0 {
        0
    } else {
        width as int
    };
    let h: int = if height < 0 {
        -(height as int)
    } else {
        height as int
    };
    if !header_complete || !has_bits || bits_per_pixel != 32 || w == 0 || h == 0 {
        None
    } else {
        Some(
            DibLayout {
                width: w as usize,
                height: h as usize,
                stride: width_bytes as usize,
                bottom_up: header_height > 0,
            },
        )
    }
}

/// Reads the layout of a DIB section from its header fields.
pub fn dib_layout(
    header_complete: bool,
    has_bits: bool,
    bits_per_pixel: u16,
    width: i32,
    height: i32,
    width_bytes: i32,
    header_height: i32,
) -> (r: Option<DibLayout>)
    ensures
        r == dib_layout_spec(
            header_complete,
            has_bits,
            bits_per_pixel,
            width,
            height,
            width_bytes,
            header_height,
        ),
        r matches Some(l) ==> l.bottom_up == (header_height > 0),
{
    if !header_complete || !has_bits || bits_per_pixel != 32 {
        return None;
    }
    let w: usize = if width < 0 {
        0
    } else {
        width as usize
    };
    let h: usize = if height < 0 {
        (0i64 - height as i64) as usize
    } else {
        height as usize
    };
    if w == 0 || h == 0 {
        return None;
    }
    Some(DibLayout { width: w, height: h, stride: width_bytes as usize, bottom_up: header_height > 0 })
}

/// The row order of a DIB section comes from its header height alone: a
/// positive header height means bottom-up rows, whatever the bitmap's own
/// height field holds; the bitmap height counts only by its magnitude, so
/// flipping its sign changes nothing.
pub proof fn lemma_row_order_from_header(
    header_complete: bool,
    has_bits: bool,
    bits_per_pixel: u16,
    width: i32,
    height: i32,
    width_bytes: i32,
    header_height: i32,
)
    ensures
        dib_layout_spec(header_complete, has_bits, bits_per_pixel, width, height, width_bytes, header_height)
            matches Some(l) ==> l.bottom_up == (header_height > 0),
        height > i32::MIN ==> dib_layout_spec(
            header_complete,
            has_bits,
            bits_per_pixel,
            width,
            height,
            width_bytes,
            header_height,
        ) == dib_layout_spec(
            header_complete,
            has_bits,
            bits_per_pixel,
            width,
            (-height) as i32,
            width_bytes,
            header_height,
        ),
{
}

/// The memory row that holds picture row `y`.
pub open spec fn source_row(y: int, height: int, bottom_up: bool) -> int {
    if bottom_up {
        height - 1 - y
    } else {
        y
    }
}

/// The first `k` picture rows, top first, `row_bytes` bytes each.
pub open spec fn top_down_rows(
    src: Seq<u8>,
    row_bytes: int,
    stride: int,
    height: int,
    bottom_up: bool,
    k: int,
) -> Seq<u8>
    decreases k,
{
    if k <= 0 {
        Seq::empty()
    } else {
        let r = source_row(k - 1, height, bottom_up);
        top_down_rows(src, row_bytes, stride, height, bottom_up, k - 1) + src.subrange(
            r * stride,
            r * stride + row_bytes,
        )
    }
}

proof fn lemma_top_down_len(
    src: Seq<u8>,
    row_bytes: int,
    stride: int,
    height: int,
    bottom_up: bool,
    k: int,
)
    requires
        0 <= k <= height,
        0 <= row_bytes,
        0 <= stride,
        (height - 1) * stride + row_bytes <= src.len(),
    ensures
        top_down_rows(src, row_bytes, stride, height, bottom_up, k).len() == k * row_bytes,
    decreases k,
{
    if k > 0 {
        lemma_top_down_len(src, row_bytes, stride, height, bottom_up, k - 1);
        let r = source_row(k - 1, height, bottom_up);
        lemma_row_in_bounds(r, row_bytes, stride, height, src.len() as int);
        let prev = top_down_rows(src, row_bytes, stride, height, bottom_up, k - 1);
        let row = src.subrange(r * stride, r * stride + row_bytes);
        assert(row.len() == row_bytes);
        assert(top_down_rows(src, row_bytes, stride, height, bottom_up, k) == prev + row);
        assert((k - 1) * row_bytes + row_bytes == k * row_bytes) by (nonlinear_arith);
    } else {
        assert(k * row_bytes == 0) by (nonlinear_arith)
            requires
                k == 0,
        ;
    }
}

proof fn lemma_row_in_bounds(r: int, row_bytes: int, stride: int, height: int, len: int)
    requires
        0 <= r < height,
        0 <= row_bytes,
        0 <= stride,
        (height - 1) * stride + row_bytes <= len,
    ensures
        0 <= r * stride,
        r * stride + row_bytes <= len,
{
    assert(0 <= r * stride) by (nonlinear_arith)
        requires
            0 <= r,
            0 <= stride,
    ;
    assert(r * stride <= (height - 1) * stride) by (nonlinear_arith)
        requires
            r <= height - 1,
            0 <= stride,
    ;
}

/// Copies the pixel rows of a 32-bit DIB into a tightly packed buffer with
/// the top row first, flipping a bottom-up DIB.
pub fn rows_top_down(src: &[u8], layout: DibLayout) -> (r: Vec<u8>)
    requires
        layout.width * 4 * layout.height <= usize::MAX,
        layout.height >= 1,
        (layout.height - 1) * layout.stride + layout.width * 4 <= src@.len(),
    ensures
        r@ == top_down_rows(
            src@,
            layout.width * 4,
            layout.stride as int,
            layout.height as int,
            layout.bottom_up,
            layout.height as int,
        ),
        r@.len() == layout.width * layout.height * 4,
{
    assert(layout.width * 4 <= layout.width * 4 * layout.height) by (nonlinear_arith)
        requires
            layout.height >= 1,
    ;
    let w4 = layout.width * 4;
    let h = layout.height;
    let src_len = src.len();
    let stride = layout.stride;
    let mut out: Vec<u8> = Vec::new();
    let mut y: usize = 0;
    while y < h
        invariant
            w4 == layout.width * 4,
            h == layout.height,
            stride == layout.stride,
            (h - 1) * stride + w4 <= src@.len(),
            src_len == src@.len(),
            y <= h,
            out@ == top_down_rows(src@, w4 as int, stride as int, h as int, layout.bottom_up, y as int),
        decreases h - y,
    {
        let row = if layout.bottom_up {
            h - 1 - y
        } else {
            y
        };
        proof {
            lemma_row_in_bounds(row as int, w4 as int, stride as int, h as int, src@.len() as int);
        }
        let base = row * stride;
        let ghost prefix = out@;
        let mut x: usize = 0;
        while x < w4
            invariant
                base + w4 <= src@.len(),
                src_len == src@.len(),
                x <= w4,
                out@ == prefix + src@.subrange(base as int, base + x),
            decreases w4 - x,
        {
            out.push(src[base + x]);
            x = x + 1;
            assert(out@ =~= prefix + src@.subrange(base as int, base + x));
        }
        y = y + 1;
    }
    proof {
        lemma_top_down_len(src@, w4 as int, stride as int, h as int, layout.bottom_up, h as int);
        assert(h * w4 == layout.width * layout.height * 4) by (nonlinear_arith)
            requires
                w4 == layout.width * 4,
                h == layout.height,
        ;
    }
    out
}

/// A colour channel with its alpha multiplied out again, rounded to
/// nearest and capped at 255; fully transparent and fully opaque pixels
/// keep their channels.
pub open spec fn unpremultiplied(c: u8, a: u8) -> u8 {
    if a == 0 || a == 255 {
        c
    } else {
        let v = (c * 255 + a / 2) / (a as int);
        if v > 255 {
            255
        } else {
            v as u8
        }
    }
}

/// Byte `i` belongs to a whole four-byte pixel and is not its alpha.
pub open spec fn is_color_byte(len: int, i: int) -> bool {
    i < len / 4 * 4 && i % 4 != 3
}

/// The buffer with every whole pixel's colour channels divided by its
/// alpha.
pub open spec fn unpremultiply_spec(px: Seq<u8>) -> Seq<u8> {
    Seq::new(
        px.len(),
        |i: int|
            if is_color_byte(px.len() as int, i) {
                unpremultiplied(px[i], px[i - i % 4 + 3])
            } else {
                px[i]
            },
    )
}

/// Undoes premultiplied alpha on a BGRA buffer, pixel by pixel, so that
/// anti-aliased edges are not darkened twice when drawn.
pub fn unpremultiply(px: &mut Vec<u8>)
    ensures
        final(px)@ == unpremultiply_spec(old(px)@),
{
    let ghost orig = px@;
    let len = px.len();
    let n = len / 4;
    let mut k: usize = 0;
    while k < n
        invariant
            n == orig.len() / 4,
            len == orig.len(),
            px@.len() == orig.len(),
            k <= n,
            forall|i: int|
                0 <= i < px@.len() ==> #[trigger] px@[i] == if i < 4 * k && is_color_byte(
                    orig.len() as int,
                    i,
                ) {
                    unpremultiplied(orig[i], orig[i - i % 4 + 3])
                } else {
                    orig[i]
                },
        decreases n - k,
    {
        proof {
            lemma_pixel_in_bounds(k as int, orig.len() as int);
        }
        let a = px[4 * k + 3];
        assert(a == orig[4 * k + 3]);
        if a != 0 && a != 255 {
            let mut c: usize = 0;
            while c < 3
                invariant
                    n == orig.len() / 4,
                    len == orig.len(),
                    px@.len() == orig.len(),
                    k < n,
                    c <= 3,
                    a == orig[4 * k + 3],
                    a != 0 && a != 255,
                    forall|i: int|
                        0 <= i < px@.len() ==> #[trigger] px@[i] == if (i < 4 * k || (4 * k <= i
                            < 4 * k + c)) && is_color_byte(orig.len() as int, i) {
                            unpremultiplied(orig[i], orig[i - i % 4 + 3])
                        } else {
                            orig[i]
                        },
                decreases 3 - c,
            {
                let i = 4 * k + c;
                let v = px[i] as u32;
                assert(v == orig[i as int]);
                let q = (v * 255 + (a as u32) / 2) / (a as u32);
                let nv: u8 = if q > 255 {
                    255
                } else {
                    q as u8
                };
                assert(i as int - (i as int) % 4 + 3 == 4 * k + 3);
                assert(nv == unpremultiplied(orig[i as int], orig[i - i % 4 + 3]));
                px.set(i, nv);
                c = c + 1;
            }
        }
        k = k + 1;
    }
    assert(px@ =~= unpremultiply_spec(orig));
}

proof fn lemma_pixel_in_bounds(k: int, len: int)
    requires
        0 <= k < len / 4,
        0 <= len,
    ensures
        4 * k + 3 < len,
{
}

/// Some whole pixel of the buffer has a nonzero alpha.
pub open spec fn has_alpha(px: Seq<u8>) -> bool {
    exists|k: int| 0 <= k < px.len() / 4 && #[trigger] px[4 * k + 3] != 0
}

/// A whole pixel whose colour channels are not all zero.
pub open spec fn has_color(px: Seq<u8>, k: int) -> bool {
    px[4 * k] != 0 || px[4 * k + 1] != 0 || px[4 * k + 2] != 0
}

/// A buffer with no alpha at all gets full alpha on every pixel that is
/// not black; a buffer with some alpha is left as it is.
pub open spec fn fix_missing_alpha_spec(px: Seq<u8>) -> Seq<u8> {
    if has_alpha(px) {
        px
    } else {
        Seq::new(
            px.len(),
            |i: int|
                if i < px.len() / 4 * 4 && i % 4 == 3 && has_color(px, i / 4) {
                    255u8
                } else {
                    px[i]
                },
        )
    }
}

/// Some legacy icons carry no alpha channel: when a buffer is entirely
/// transparent, every non-black pixel is made opaque so the icon does not
/// disappear.
pub fn fix_missing_alpha(px: &mut Vec<u8>)
    ensures
        final(px)@ == fix_missing_alpha_spec(old(px)@),
{
    let ghost orig = px@;
    let len = px.len();
    let n = len / 4;
    let mut k: usize = 0;
    let mut any_alpha = false;
    while k < n && !any_alpha
        invariant
            n == orig.len() / 4,
            len == orig.len(),
            px@ == orig,
            k <= n,
            any_alpha ==> k < n && orig[4 * k + 3] != 0,
            forall|j: int| 0 <= j < k ==> #[trigger] orig[4 * j + 3] == 0,
        decreases 2 * (n - k) + if any_alpha {
            0int
        } else {
            1int
        },
    {
        proof {
            lemma_pixel_in_bounds(k as int, orig.len() as int);
        }
        if px[4 * k + 3] != 0 {
            any_alpha = true;
        } else {
            k = k + 1;
        }
    }
    if any_alpha {
        assert(orig[4 * k + 3] != 0);
        assert(has_alpha(orig));
        return;
    }
    assert(!has_alpha(orig)) by {
        assert forall|j: int| 0 <= j < orig.len() / 4 implies #[trigger] orig[4 * j + 3] == 0 by {
            assert(j < k);
        }
    }
    let mut k: usize = 0;
    while k < n
        invariant
            n == orig.len() / 4,
            len == orig.len(),
            px@.len() == orig.len(),
            !has_alpha(orig),
            k <= n,
            forall|i: int|
                0 <= i < px@.len() ==> #[trigger] px@[i] == if i < 4 * k && i % 4 == 3 && has_color(
                    orig,
                    i / 4,
                ) {
                    255u8
                } else {
                    orig[i]
                },
        decreases n - k,
    {
        proof {
            lemma_pixel_in_bounds(k as int, orig.len() as int);
        }
        if px[4 * k] != 0 || px[4 * k + 1] != 0 || px[4 * k + 2] != 0 {
            assert(has_color(orig, k as int));
            assert((4 * k + 3) / 4 == k);
            px.set(4 * k + 3, 255);
        }
        k = k + 1;
    }
    assert(px@ =~= fix_missing_alpha_spec(orig));
}

/// After the fix a buffer is invisible only if every pixel of it is black.
pub proof fn lemma_fixed_icon_visible(px: Seq<u8>, k: int)
    requires
        0 <= k < px.len() / 4,
        has_color(px, k),
    ensures
        has_alpha(fix_missing_alpha_spec(px)),
{
    let f = fix_missing_alpha_spec(px);
    if !has_alpha(px) {
        assert((4 * k + 3) / 4 == k);
        assert(f[4 * k + 3] == 255u8);
    }
}

/// Undoing premultiplied alpha never touches the alpha channel, nor any
/// pixel that is fully transparent or fully opaque.
pub proof fn lemma_unpremultiply_keeps(px: Seq<u8>, k: int)
    requires
        0 <= k < px.len() / 4,
    ensures
        unpremultiply_spec(px)[4 * k + 3] == px[4 * k + 3],
        px[4 * k + 3] == 0 || px[4 * k + 3] == 255 ==> unpremultiply_spec(px).subrange(
            4 * k,
            4 * k + 4,
        ) == px.subrange(4 * k, 4 * k + 4),
{
    let u = unpremultiply_spec(px);
    if px[4 * k + 3] == 0 || px[4 * k + 3] == 255 {
        let us = u.subrange(4 * k, 4 * k + 4);
        let ps = px.subrange(4 * k, 4 * k + 4);
        assert forall|j: int| 0 <= j < 4 implies #[trigger] us[j] == ps[j] by {
            assert((4 * k + j) - (4 * k + j) % 4 + 3 == 4 * k + 3);
            assert(us[j] == u[4 * k + j]);
        }
        assert(us =~= ps);
    }
}

/// The icon pixels of a DIB section as a top-down, straight-alpha BGRA
/// buffer.
pub fn dib_to_bgra(src: &[u8], layout: DibLayout) -> (r: Vec<u8>)
    requires
        layout.width * 4 * layout.height <= usize::MAX,
        layout.height >= 1,
        (layout.height - 1) * layout.stride + layout.width * 4 <= src@.len(),
    ensures
        r@ == unpremultiply_spec(
            top_down_rows(
                src@,
                layout.width * 4,
                layout.stride as int,
                layout.height as int,
                layout.bottom_up,
                layout.height as int,
            ),
        ),
        r@.len() == layout.width * layout.height * 4,
{
    let mut out = rows_top_down(src, layout);
    unpremultiply(&mut out);
    out
}

} // verus!
