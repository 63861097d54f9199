//! Compositing the resolved source images into one packed canvas.

use vstd::prelude::*;
use crate::pixels::{lemma_pixel_index_in_range, pixel_index, PixelBuffer};
use crate::rect::{all_contained, pairwise_disjoint, Rect};

verus! {

/// The first rect at or after position `k` that covers pixel `(x, y)`.
pub open spec fn first_rect_from(rects: Seq<Rect>, k: int, x: int, y: int) -> Option<int>
    decreases rects.len() - k,
{
    if k < 0 || k >= rects.len() {
        None
    } else if rects[k].spec_contains(x, y) {
        Some(k)
    } else {
        first_rect_from(rects, k + 1, x, y)
    }
}

/// The first rect that covers pixel `(x, y)`, if any.
pub open spec fn first_rect_at(rects: Seq<Rect>, x: int, y: int) -> Option<int> {
    first_rect_from(rects, 0, x, y)
}

/// What the packed canvas holds at `(x, y)`: the matching source pixel
/// where some rect covers the position, and transparent zero elsewhere.
pub open spec fn composite_pixel(
    rects: Seq<Rect>,
    images: Seq<PixelBuffer>,
    x: int,
    y: int,
) -> u32 {
    match first_rect_at(rects, x, y) {
        Some(i) => images[i].spec_pixel(x - rects[i].x, y - rects[i].y),
        None => 0u32,
    }
}

/// With pairwise-disjoint rects, the first rect covering a pixel of rect
/// `i` is rect `i` itself.
pub proof fn lemma_first_rect_at_hit(rects: Seq<Rect>, i: int, x: int, y: int)
    requires
        pairwise_disjoint(rects),
        0 <= i < rects.len(),
        rects[i].spec_contains(x, y),
    ensures
        first_rect_at(rects, x, y) == Some(i),
{
    lemma_first_rect_from_hit(rects, 0, i, x, y);
}

proof fn lemma_first_rect_from_hit(rects: Seq<Rect>, k: int, i: int, x: int, y: int)
    requires
        pairwise_disjoint(rects),
        0 <= k <= i < rects.len(),
        rects[i].spec_contains(x, y),
    ensures
        first_rect_from(rects, k, x, y) == Some(i),
    decreases i - k,
{
    if k < i {
        assert(rects[k].disjoint(rects[i]));
        assert(!rects[k].spec_contains(x, y));
        lemma_first_rect_from_hit(rects, k + 1, i, x, y);
    }
}

/// A position strictly before `(x, y)` in row-major order has a strictly
/// smaller row-major index.
proof fn lemma_rowmajor_before(width: int, x: int, y: int, xx: int, yy: int)
    requires
        0 <= xx < width,
        0 <= x,
        0 <= yy,
        0 <= y,
        yy < y || (yy == y && xx < x),
    ensures
        0 <= pixel_index(width, xx, yy) < y * width + x,
{
    assert(0 <= yy * width + xx < y * width + x) by (nonlinear_arith)
        requires
            0 <= xx < width,
            0 <= x,
            0 <= yy,
            0 <= y,
            yy < y || (yy == y && xx < x),
    ;
}

/// The pixel the packed canvas holds at `(x, y)`, computed by first-match
/// lookup over the placements.
fn atlas_pixel(rects: &Vec<Rect>, images: &Vec<PixelBuffer>, x: u32, y: u32) -> (v: u32)
    requires
        rects@.len() == images@.len(),
        forall|i: int|
            0 <= i < images@.len() ==> (#[trigger] images@[i]).wf() && images@[i].width
                == rects@[i].width && images@[i].height == rects@[i].height,
    ensures
        v == composite_pixel(rects@, images@, x as int, y as int),
{
    let n = rects.len();
    let mut k: usize = 0;
    while k < n
        invariant
            k <= n,
            n == rects@.len(),
            rects@.len() == images@.len(),
            forall|i: int|
                0 <= i < images@.len() ==> (#[trigger] images@[i]).wf() && images@[i].width
                    == rects@[i].width && images@[i].height == rects@[i].height,
            first_rect_at(rects@, x as int, y as int) == first_rect_from(
                rects@,
                k as int,
                x as int,
                y as int,
            ),
        decreases n - k,
    {
        let r = rects[k];
        let inside = r.x as u64 <= x as u64 && (x as u64) < r.x as u64 + r.width as u64
            && r.y as u64 <= y as u64 && (y as u64) < r.y as u64 + r.height as u64;
        if inside {
            let img = &images[k];
            let dx = x - r.x;
            let dy = y - r.y;
            proof {
                lemma_pixel_index_in_range(
                    img.width as int,
                    img.height as int,
                    dx as int,
                    dy as int,
                );
                assert(img.data@.len() == img.width * img.height);
            }
            let len = img.data.len();
            proof {
                assert((dy as int * img.width as int + dx as int) < len as int);
            }
            let idx: usize = dy as usize * img.width as usize + dx as usize;
            return img.data[idx];
        }
        k += 1;
    }
    0
}

/// Composites the resolved source images into one canvas of the given size,
/// one image per placement rect, in placement order.
///
/// Every pixel of a placement shows the matching pixel of its source image;
/// every pixel outside all placements is transparent zero.
pub fn composite(
    canvas_w: u32,
    canvas_h: u32,
    rects: &Vec<Rect>,
    images: &Vec<PixelBuffer>,
) -> (r: PixelBuffer)
    requires
        rects@.len() == images@.len(),
        pairwise_disjoint(rects@),
        all_contained(rects@, canvas_w, canvas_h),
        forall|i: int|
            0 <= i < images@.len() ==> (#[trigger] images@[i]).wf() && images@[i].width
                == rects@[i].width && images@[i].height == rects@[i].height,
        canvas_w * canvas_h <= usize::MAX,
    ensures
        r.width == canvas_w,
        r.height == canvas_h,
        r.wf(),
        forall|x: int, y: int|
            0 <= x < canvas_w && 0 <= y < canvas_h ==> r.spec_pixel(x, y) == #[trigger]
            composite_pixel(rects@, images@, x, y),
        forall|i: int, dx: int, dy: int|
            0 <= i < rects@.len() && 0 <= dx < rects@[i].width && 0 <= dy < rects@[i].height
                ==> r.spec_pixel(rects@[i].x + dx, rects@[i].y + dy) == #[trigger] images@[
                i
            ].spec_pixel(dx, dy),
{
    let mut data: Vec<u32> = Vec::new();
    let mut y: u32 = 0;
    while y < canvas_h
        invariant
            0 <= y <= canvas_h,
            rects@.len() == images@.len(),
            pairwise_disjoint(rects@),
            all_contained(rects@, canvas_w, canvas_h),
            forall|i: int|
                0 <= i < images@.len() ==> (#[trigger] images@[i]).wf() && images@[i].width
                    == rects@[i].width && images@[i].height == rects@[i].height,
            canvas_w * canvas_h <= usize::MAX,
            data@.len() == y * canvas_w,
            forall|xx: int, yy: int|
                0 <= xx < canvas_w && 0 <= yy < y ==> data@[pixel_index(canvas_w as int, xx, yy)]
                    == #[trigger] composite_pixel(rects@, images@, xx, yy),
        decreases canvas_h - y,
    {
        let mut x: u32 = 0;
        while x < canvas_w
            invariant
                0 <= x <= canvas_w,
                0 <= y < canvas_h,
                rects@.len() == images@.len(),
                pairwise_disjoint(rects@),
                all_contained(rects@, canvas_w, canvas_h),
                forall|i: int|
                    0 <= i < images@.len() ==> (#[trigger] images@[i]).wf() && images@[i].width
                        == rects@[i].width && images@[i].height == rects@[i].height,
                canvas_w * canvas_h <= usize::MAX,
                data@.len() == y * canvas_w + x,
                forall|xx: int, yy: int|
                    0 <= xx < canvas_w && (yy < y || (yy == y && xx < x)) && 0 <= yy ==> data@[
                        pixel_index(canvas_w as int, xx, yy)
                    ] == #[trigger] composite_pixel(rects@, images@, xx, yy),
            decreases canvas_w - x,
        {
            proof {
                lemma_rowmajor_before(canvas_w as int, x as int + 1, y as int, x as int, y as int);
                assert(y * canvas_w + x < canvas_w * canvas_h) by (nonlinear_arith)
                    requires
                        0 <= x < canvas_w,
                        0 <= y < canvas_h,
                ;
            }
            let v = atlas_pixel(rects, images, x, y);
            data.push(v);
            proof {
                assert forall|xx: int, yy: int|
                    0 <= xx < canvas_w && (yy < y || (yy == y && xx < x + 1)) && 0 <= yy implies
                    data@[pixel_index(canvas_w as int, xx, yy)] == #[trigger] composite_pixel(
                        rects@,
                        images@,
                        xx,
                        yy,
                    ) by {
                    if yy < y || (yy == y && xx < x) {
                        lemma_rowmajor_before(canvas_w as int, x as int, y as int, xx, yy);
                    } else {
                        assert(pixel_index(canvas_w as int, xx, yy) == data@.len() - 1);
                    }
                }
            }
            x += 1;
        }
        proof {
            assert(y * canvas_w + canvas_w == (y + 1) * canvas_w) by (nonlinear_arith);
        }
        y += 1;
    }
    let r = PixelBuffer { width: canvas_w, height: canvas_h, data };
    proof {
        assert(r.data@.len() == r.width * r.height) by (nonlinear_arith)
            requires
                r.data@.len() == r.height * r.width,
        ;
        assert forall|i: int, dx: int, dy: int|
            0 <= i < rects@.len() && 0 <= dx < rects@[i].width && 0 <= dy < rects@[i].height
                implies r.spec_pixel(rects@[i].x + dx, rects@[i].y + dy) == #[trigger] images@[
            i
        ].spec_pixel(dx, dy) by {
            let px = rects@[i].x + dx;
            let py = rects@[i].y + dy;
            assert(rects@[i].contained_in(canvas_w, canvas_h));
            assert(rects@[i].spec_contains(px, py));
            lemma_first_rect_at_hit(rects@, i, px, py);
            assert(composite_pixel(rects@, images@, px, py) == images@[i].spec_pixel(dx, dy));
        }
    }
    r
}

} // verus!
