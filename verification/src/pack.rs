//! Deterministic shelf packing.
//!
//! Policy: rects are placed left to right, in input order, on horizontal
//! shelves. The shelf width limit is the larger of [`MIN_SHELF_WIDTH`] and
//! the widest input. A rect that does not fit on the current shelf opens a
//! new shelf directly below it. The canvas width is the widest used extent,
//! the canvas height the total height of the shelves. The whole placement is
//! a function of the input size sequence alone.

use vstd::prelude::*;
use crate::errors::PackingError;
use crate::layout::TextureAtlasLayout;
use crate::rect::{all_contained, pairwise_disjoint, Rect};

verus! {

/// Lower bound of the shelf width limit, in pixels.
pub const MIN_SHELF_WIDTH: u32 = 1024;

pub open spec fn spec_max(a: int, b: int) -> int {
    if a > b {
        a
    } else {
        b
    }
}

/// The widest input among the first `n` sizes.
pub open spec fn max_width_upto(sizes: Seq<(u32, u32)>, n: int) -> int
    decreases n,
{
    if n <= 0 {
        0
    } else {
        spec_max(max_width_upto(sizes, n - 1), sizes[n - 1].0 as int)
    }
}

/// The shelf width limit chosen for this input.
pub open spec fn shelf_limit(sizes: Seq<(u32, u32)>) -> int {
    spec_max(MIN_SHELF_WIDTH as int, max_width_upto(sizes, sizes.len() as int))
}

/// Packer state after some placements: `(next_x, shelf_y, shelf_h, canvas_w)`.
pub open spec fn step_state(st: (int, int, int, int), w: int, h: int, lim: int) -> (
    int,
    int,
    int,
    int,
) {
    if st.0 + w <= lim {
        (st.0 + w, st.1, spec_max(st.2, h), spec_max(st.3, st.0 + w))
    } else {
        (w, st.1 + st.2, h, spec_max(st.3, w))
    }
}

/// Packer state after the first `n` placements.
pub open spec fn state_at(sizes: Seq<(u32, u32)>, lim: int, n: int) -> (int, int, int, int)
    decreases n,
{
    if n <= 0 {
        (0, 0, 0, 0)
    } else {
        step_state(state_at(sizes, lim, n - 1), sizes[n - 1].0 as int, sizes[n - 1].1 as int, lim)
    }
}

/// The position `(x, y)` given to placement `i`.
pub open spec fn pos_at(sizes: Seq<(u32, u32)>, lim: int, i: int) -> (int, int) {
    let st = state_at(sizes, lim, i);
    if st.0 + sizes[i].0 <= lim {
        (st.0, st.1)
    } else {
        (0, st.1 + st.2)
    }
}

/// The model rect of placement `i`, as `(x, y, width, height)`.
pub open spec fn rect_model(sizes: Seq<(u32, u32)>, i: int) -> (int, int, int, int) {
    let p = pos_at(sizes, shelf_limit(sizes), i);
    (p.0, p.1, sizes[i].0 as int, sizes[i].1 as int)
}

/// The model canvas size, as `(width, height)`.
pub open spec fn canvas_model(sizes: Seq<(u32, u32)>) -> (int, int) {
    let st = state_at(sizes, shelf_limit(sizes), sizes.len() as int);
    (st.3, st.1 + st.2)
}

/// Every input has a positive width and height.
pub open spec fn sizes_positive(sizes: Seq<(u32, u32)>) -> bool {
    forall|i: int|
        0 <= i < sizes.len() ==> 1 <= (#[trigger] sizes[i]).0 && 1 <= sizes[i].1
}

/// A rect's fields as a tuple of mathematical integers.
pub open spec fn rect_ints(r: Rect) -> (int, int, int, int) {
    (r.x as int, r.y as int, r.width as int, r.height as int)
}

/// The layout is exactly what the packing model assigns to these sizes.
pub open spec fn is_packing_of(layout: TextureAtlasLayout, sizes: Seq<(u32, u32)>) -> bool {
    &&& layout.textures@.len() == sizes.len()
    &&& forall|i: int|
        0 <= i < sizes.len() ==> rect_ints(#[trigger] layout.textures@[i]) == rect_model(sizes, i)
    &&& (layout.size.0 as int, layout.size.1 as int) == canvas_model(sizes)
}

/// No input is wider than the running maximum that covers it.
proof fn lemma_max_width_upto_bounds(sizes: Seq<(u32, u32)>, n: int, j: int)
    requires
        0 <= j < n <= sizes.len(),
    ensures
        sizes[j].0 as int <= max_width_upto(sizes, n),
    decreases n,
{
    if j < n - 1 {
        lemma_max_width_upto_bounds(sizes, n - 1, j);
    }
}

/// The canvas height grows monotonically as placements are added.
proof fn lemma_canvas_h_monotone(sizes: Seq<(u32, u32)>, lim: int, a: int, b: int)
    requires
        0 <= a <= b,
    ensures
        state_at(sizes, lim, a).1 + state_at(sizes, lim, a).2 <= state_at(sizes, lim, b).1
            + state_at(sizes, lim, b).2,
    decreases b - a,
{
    if a < b {
        lemma_canvas_h_monotone(sizes, lim, a, b - 1);
    }
}

/// A rect disjoint from every element of a sequence of pairwise-disjoint
/// rects can be appended without breaking pairwise disjointness.
proof fn lemma_pairwise_disjoint_push(s: Seq<Rect>, r: Rect)
    requires
        pairwise_disjoint(s),
        forall|j: int| 0 <= j < s.len() ==> (#[trigger] s[j]).disjoint(r),
    ensures
        pairwise_disjoint(s.push(r)),
{
    let t = s.push(r);
    assert forall|i: int, j: int|
        0 <= i < t.len() && 0 <= j < t.len() && i != j implies #[trigger] t[i].disjoint(
        #[trigger] t[j],
    ) by {
        if i < s.len() && j < s.len() {
            assert(s[i].disjoint(s[j]));
        } else if i < s.len() {
            assert(s[i].disjoint(r));
        } else {
            assert(s[j].disjoint(r));
        }
    }
}

/// Packs the given `(width, height)` sizes, in order, into one canvas.
///
/// On success the returned layout is exactly the placement of the packing
/// model: its rects keep the input order and sizes, no two overlap, and all
/// lie inside a positive canvas. Packing fails on an empty input, on a zero
/// width or height, and when the packed canvas would outgrow the pixel
/// coordinate range; it never returns a zero-size layout.
pub fn pack(sizes: &Vec<(u32, u32)>) -> (r: Result<TextureAtlasLayout, PackingError>)
    ensures
        match r {
            Ok(layout) => {
                &&& sizes@.len() > 0
                &&& sizes_positive(sizes@)
                &&& is_packing_of(layout, sizes@)
                &&& layout.wf()
                &&& layout.size.0 >= 1
                &&& layout.size.1 >= 1
            },
            Err(e) => {
                &&& (e == PackingError::EmptyInput <==> sizes@.len() == 0)
                &&& (e == PackingError::InvalidDimension <==> sizes@.len() > 0 && !sizes_positive(
                    sizes@,
                ))
                &&& (e == PackingError::SizeLimitExceeded <==> sizes@.len() > 0 && sizes_positive(
                    sizes@,
                ) && canvas_model(sizes@).1 > u32::MAX)
            },
        },
        r is Err <==> (sizes@.len() == 0 || !sizes_positive(sizes@) || canvas_model(sizes@).1
            > u32::MAX),
{
    let n = sizes.len();
    if n == 0 {
        return Err(PackingError::EmptyInput);
    }
    let mut maxw: u32 = 0;
    let mut k: usize = 0;
    while k < n
        invariant
            k <= n,
            n == sizes@.len(),
            maxw as int == max_width_upto(sizes@, k as int),
            forall|j: int|
                0 <= j < k ==> 1 <= (#[trigger] sizes@[j]).0 && 1 <= sizes@[j].1,
        decreases n - k,
    {
        let (w, h) = sizes[k];
        if w == 0 || h == 0 {
            return Err(PackingError::InvalidDimension);
        }
        if w > maxw {
            maxw = w;
        }
        k += 1;
    }
    let lim: u32 = if maxw < MIN_SHELF_WIDTH {
        MIN_SHELF_WIDTH
    } else {
        maxw
    };
    proof {
        assert(sizes_positive(sizes@));
        assert(lim as int == shelf_limit(sizes@));
    }

    let mut rects: Vec<Rect> = Vec::new();
    let mut next_x: u32 = 0;
    let mut shelf_y: u32 = 0;
    let mut shelf_h: u32 = 0;
    let mut canvas_w: u32 = 0;
    let mut i: usize = 0;
    while i < n
        invariant
            i <= n,
            n == sizes@.len(),
            sizes_positive(sizes@),
            lim as int == shelf_limit(sizes@),
            rects@.len() == i,
            (next_x as int, shelf_y as int, shelf_h as int, canvas_w as int) == state_at(
                sizes@,
                lim as int,
                i as int,
            ),
            next_x <= lim,
            canvas_w <= lim,
            forall|j: int|
                0 <= j < i ==> rect_ints(#[trigger] rects@[j]) == rect_model(sizes@, j),
            forall|j: int|
                0 <= j < i ==> {
                    let rj = #[trigger] rects@[j];
                    ||| rj.y + rj.height <= shelf_y
                    ||| (rj.y == shelf_y && rj.x + rj.width <= next_x && rj.height <= shelf_h)
                },
            forall|j: int|
                0 <= j < i ==> (#[trigger] rects@[j]).x + rects@[j].width <= canvas_w,
            forall|j: int|
                0 <= j < i ==> (#[trigger] rects@[j]).y + rects@[j].height <= shelf_y + shelf_h,
            pairwise_disjoint(rects@),
        decreases n - i,
    {
        let (w, h) = sizes[i];
        proof {
            lemma_max_width_upto_bounds(sizes@, n as int, i as int);
            assert(w as int <= lim as int);
        }
        if next_x as u64 + w as u64 <= lim as u64 {
            let r = Rect { x: next_x, y: shelf_y, width: w, height: h };
            let ghost prev = rects@;
            proof {
                assert forall|j: int| 0 <= j < prev.len() implies (#[trigger] prev[j]).disjoint(
                    r,
                ) by {
                    assert(prev[j].y + prev[j].height <= shelf_y || (prev[j].y == shelf_y
                        && prev[j].x + prev[j].width <= next_x && prev[j].height <= shelf_h));
                }
                lemma_pairwise_disjoint_push(prev, r);
            }
            rects.push(r);
            next_x = next_x + w;
            if h > shelf_h {
                shelf_h = h;
            }
            if next_x > canvas_w {
                canvas_w = next_x;
            }
        } else {
            let ny: u64 = shelf_y as u64 + shelf_h as u64;
            if ny > u32::MAX as u64 {
                proof {
                    lemma_canvas_h_monotone(sizes@, lim as int, i as int + 1, n as int);
                    assert(state_at(sizes@, lim as int, i as int + 1).1 == shelf_y as int
                        + shelf_h as int);
                    assert(canvas_model(sizes@).1 > u32::MAX);
                }
                return Err(PackingError::SizeLimitExceeded);
            }
            let r = Rect { x: 0, y: ny as u32, width: w, height: h };
            let ghost prev = rects@;
            proof {
                assert forall|j: int| 0 <= j < prev.len() implies (#[trigger] prev[j]).disjoint(
                    r,
                ) by {
                    assert(prev[j].y + prev[j].height <= shelf_y || (prev[j].y == shelf_y
                        && prev[j].x + prev[j].width <= next_x && prev[j].height <= shelf_h));
                }
                lemma_pairwise_disjoint_push(prev, r);
            }
            rects.push(r);
            next_x = w;
            shelf_y = ny as u32;
            shelf_h = h;
            if w > canvas_w {
                canvas_w = w;
            }
        }
        i += 1;
    }
    let ch: u64 = shelf_y as u64 + shelf_h as u64;
    if ch > u32::MAX as u64 {
        return Err(PackingError::SizeLimitExceeded);
    }
    let layout = TextureAtlasLayout { size: (canvas_w, ch as u32), textures: rects };
    proof {
        assert(all_contained(layout.textures@, layout.size.0, layout.size.1));
        assert(layout.wf());
        assert(rect_ints(layout.textures@[0]) == rect_model(sizes@, 0));
        assert(layout.textures@[0].x + layout.textures@[0].width <= layout.size.0);
        assert(layout.textures@[0].y + layout.textures@[0].height <= layout.size.1);
    }
    Ok(layout)
}

/// Determinism: the packing model is a function of the size sequence alone,
/// so two layouts packed from the same ordered sizes agree placement for
/// placement and share one canvas size.
pub proof fn lemma_pack_deterministic(
    sizes: Seq<(u32, u32)>,
    l1: TextureAtlasLayout,
    l2: TextureAtlasLayout,
)
    requires
        is_packing_of(l1, sizes),
        is_packing_of(l2, sizes),
    ensures
        l1.textures@ =~= l2.textures@,
        l1.size == l2.size,
{
    assert forall|i: int| 0 <= i < sizes.len() implies l1.textures@[i] == l2.textures@[i] by {
        assert(rect_ints(l1.textures@[i]) == rect_model(sizes, i));
        assert(rect_ints(l2.textures@[i]) == rect_model(sizes, i));
    }
}

} // verus!
