//! Edge-mask-guided extraction: a bounding box read directly off a binary
//! edge mask, and a per-row trim that lets the background show through where
//! the detector found no edges on a row.

use vstd::prelude::*;

use crate::buffer::Buffer;
use crate::crop::Crop;
use crate::crop::ObjectInfo;
use crate::pixel::Rgba;

verus! {

/// The mask pixel at `(x, y)` extends the edge-scan bounding box: it lies
/// inside the mask and is not zero.
pub open spec fn g_extender(e: Buffer<u8>, x: int, y: int) -> bool {
    &&& 0 <= x < e.width
    &&& 0 <= y < e.height
    &&& e.at(x, y) != 0
}

/// What the edge-mask scan returns: before padding, each extent is the
/// furthest non-zero mask coordinate in its direction, starting from the mask
/// centre and never moving inward; no noise suppression is applied. The
/// stored extents are then expanded by the padding on every side.
pub open spec fn gray_info_post(e: Buffer<u8>, padding: int, info: ObjectInfo) -> bool {
    let w = e.width as int;
    let h = e.height as int;
    let mnx = info.min_x + padding;
    let mxx = info.max_x - padding;
    let mny = info.min_y + padding;
    let mxy = info.max_y - padding;
    &&& 0 <= mnx <= w / 2
    &&& (mnx < w / 2 ==> exists|y: int| g_extender(e, mnx, y))
    &&& w / 2 <= mxx
    &&& (mxx > w / 2 ==> exists|y: int| g_extender(e, mxx, y))
    &&& 0 <= mny <= h / 2
    &&& (mny < h / 2 ==> exists|x: int| g_extender(e, x, mny))
    &&& h / 2 <= mxy
    &&& (mxy > h / 2 ==> exists|x: int| g_extender(e, x, mxy))
    &&& forall|x: int, y: int| g_extender(e, x, y) ==> mnx <= x <= mxx
    &&& forall|x: int, y: int| g_extender(e, x, y) ==> mny <= y <= mxy
}

/// The mask holds an edge sample (the maximum value) at `(x, y)`.
pub open spec fn edge_at(e: Buffer<u8>, x: int, y: int) -> bool {
    &&& 0 <= x < e.width
    &&& 0 <= y < e.height
    &&& e.at(x, y) == 255
}

/// Some edge sample lies within a two-pixel (Chebyshev) radius of `(x, y)`,
/// clamped to the mask bounds.
pub open spec fn edge_adjacent(e: Buffer<u8>, x: int, y: int) -> bool {
    exists|i: int, j: int| x - 2 <= i <= x + 2 && y - 2 <= j <= y + 2 && edge_at(e, i, j)
}

/// The location holds an edge sample or sits next to one: the per-row trim
/// copies source pixels only between the first and last such location of the
/// row.
pub open spec fn edge_marked(e: Buffer<u8>, x: int, y: int) -> bool {
    edge_at(e, x, y) || edge_adjacent(e, x, y)
}

/// Destination cell `(dx, dy)` maps to a mask coordinate inside the mask that
/// is edge-marked.
pub open spec fn row_mark(e: Buffer<u8>, info: ObjectInfo, dx: int, dy: int) -> bool {
    let sx = dx + info.min_x;
    let sy = dy + info.min_y;
    &&& 0 <= sx < e.width
    &&& 0 <= sy < e.height
    &&& edge_marked(e, sx, sy)
}

/// The pixel the edge-guided extraction writes at `(dx, dy)`: the source
/// pixel when its coordinate lies inside the image and some edge-marked cell
/// of the same destination row sits at or before it and another at or after
/// it; the background color otherwise.
pub open spec fn edges_pixel(
    src: Buffer<Rgba>,
    e: Buffer<u8>,
    bgc: Rgba,
    info: ObjectInfo,
    dx: int,
    dy: int,
) -> Rgba {
    let sx = dx + info.min_x;
    let sy = dy + info.min_y;
    let copy = {
        &&& 0 <= sx < src.width
        &&& 0 <= sy < src.height
        &&& exists|dl: int| 0 <= dl <= dx && row_mark(e, info, dl, dy)
        &&& exists|dr: int| dx <= dr < info.max_x - info.min_x + 1 && row_mark(e, info, dr, dy)
    };
    if copy {
        src.at(sx, sy)
    } else {
        bgc
    }
}

/// The edge-guided extraction output: the box read off the mask, each row
/// trimmed to the span between its first and last edge-marked cell, the rest
/// filled with the background color.
pub open spec fn crop_to_edges_post(
    src: Buffer<Rgba>,
    e: Buffer<u8>,
    bgc: Rgba,
    info: ObjectInfo,
    out: Buffer<Rgba>,
) -> bool {
    &&& out.wf()
    &&& out.width == info.max_x - info.min_x + 1
    &&& out.height == info.max_y - info.min_y + 1
    &&& forall|dx: int, dy: int|
        0 <= dx < out.width && 0 <= dy < out.height ==> out.at(dx, dy) == edges_pixel(
            src,
            e,
            bgc,
            info,
            dx,
            dy,
        )
}

impl Crop {
    /// Scans the edge mask for the minimal rectangle around its non-zero
    /// samples, starting from the degenerate centred box, then expands it by
    /// the padding on every side.
    pub fn object_info_gray(&self, edges: &Buffer<u8>) -> (info: ObjectInfo)
        requires
            edges.wf(),
        ensures
            gray_info_post(*edges, self.padding as int, info),
    {
        let w = edges.width;
        let h = edges.height;
        let mut min_x: u32 = w / 2;
        let mut min_y: u32 = h / 2;
        let mut max_x: u32 = w / 2;
        let mut max_y: u32 = h / 2;

        let mut y: u32 = 0;
        while y < h
            invariant
                y <= h,
                edges.wf(),
                w == edges.width,
                h == edges.height,
                min_x <= w / 2 && w / 2 <= max_x,
                min_y <= h / 2 && h / 2 <= max_y,
                min_x < w / 2 ==> exists|yy: int| g_extender(*edges, min_x as int, yy),
                max_x > w / 2 ==> exists|yy: int| g_extender(*edges, max_x as int, yy),
                min_y < h / 2 ==> exists|xx: int| g_extender(*edges, xx, min_y as int),
                max_y > h / 2 ==> exists|xx: int| g_extender(*edges, xx, max_y as int),
                forall|x0: int, y0: int|
                    y0 < y && g_extender(*edges, x0, y0) ==> min_x <= x0 <= max_x,
                forall|x0: int, y0: int|
                    y0 < y && g_extender(*edges, x0, y0) ==> min_y <= y0 <= max_y,
            decreases h - y,
        {
            let mut x: u32 = 0;
            while x < w
                invariant
                    x <= w,
                    y < h,
                    edges.wf(),
                    w == edges.width,
                    h == edges.height,
                    min_x <= w / 2 && w / 2 <= max_x,
                    min_y <= h / 2 && h / 2 <= max_y,
                    min_x < w / 2 ==> exists|yy: int| g_extender(*edges, min_x as int, yy),
                    max_x > w / 2 ==> exists|yy: int| g_extender(*edges, max_x as int, yy),
                    min_y < h / 2 ==> exists|xx: int| g_extender(*edges, xx, min_y as int),
                    max_y > h / 2 ==> exists|xx: int| g_extender(*edges, xx, max_y as int),
                    forall|x0: int, y0: int|
                        (y0 < y || (y0 == y && x0 < x)) && g_extender(*edges, x0, y0)
                            ==> min_x <= x0 <= max_x,
                    forall|x0: int, y0: int|
                        (y0 < y || (y0 == y && x0 < x)) && g_extender(*edges, x0, y0)
                            ==> min_y <= y0 <= max_y,
                decreases w - x,
            {
                if edges.get(x, y) != 0 {
                    proof {
                        assert(g_extender(*edges, x as int, y as int));
                    }
                    if x < min_x {
                        min_x = x;
                    }
                    if y < min_y {
                        min_y = y;
                    }
                    if x > max_x {
                        max_x = x;
                    }
                    if y > max_y {
                        max_y = y;
                    }
                }
                x = x + 1;
            }
            y = y + 1;
        }

        ObjectInfo {
            min_x: min_x as i64 - self.padding as i64,
            min_y: min_y as i64 - self.padding as i64,
            max_x: max_x as i64 + self.padding as i64,
            max_y: max_y as i64 + self.padding as i64,
        }
    }

    /// True when an edge sample sits within a two-pixel (Chebyshev) radius of
    /// `(x, y)`, the window clamped at the mask borders.
    fn are_neighbours_edges(&self, edges: &Buffer<u8>, x: u32, y: u32) -> (r: bool)
        requires
            edges.wf(),
            x < edges.width,
            y < edges.height,
        ensures
            r == edge_adjacent(*edges, x as int, y as int),
    {
        let w = edges.width;
        let h = edges.height;
        let lo_i = if x >= 2 {
            x - 2
        } else {
            0
        };
        let hi_i = if w - 1 - x >= 2 {
            x + 2
        } else {
            w - 1
        };
        let lo_j = if y >= 2 {
            y - 2
        } else {
            0
        };
        let hi_j = if h - 1 - y >= 2 {
            y + 2
        } else {
            h - 1
        };
        let mut i = lo_i;
        while i <= hi_i
            invariant
                edges.wf(),
                w == edges.width,
                h == edges.height,
                x < w,
                y < h,
                lo_i == if x >= 2 { x - 2 } else { 0 },
                hi_i < w,
                hi_i == if x + 2 < w { x + 2 } else { w - 1 },
                lo_j == if y >= 2 { y - 2 } else { 0 },
                hi_j < h,
                hi_j == if y + 2 < h { y + 2 } else { h - 1 },
                lo_i <= i <= hi_i + 1,
                forall|i0: int, j0: int|
                    lo_i <= i0 < i && lo_j <= j0 <= hi_j ==> !edge_at(*edges, i0, j0),
            decreases hi_i + 1 - i,
        {
            let mut j = lo_j;
            while j <= hi_j
                invariant
                    edges.wf(),
                    w == edges.width,
                    h == edges.height,
                    x < w,
                    y < h,
                    lo_i == if x >= 2 { x - 2 } else { 0 },
                    hi_i == if x + 2 < w { x + 2 } else { w - 1 },
                    lo_j == if y >= 2 { y - 2 } else { 0 },
                    hi_j == if y + 2 < h { y + 2 } else { h - 1 },
                    lo_i <= i <= hi_i < w,
                    hi_j < h,
                    lo_j <= j <= hi_j + 1,
                    forall|j0: int| lo_j <= j0 < j ==> !edge_at(*edges, i as int, j0),
                decreases hi_j + 1 - j,
            {
                if edges.get(i, j) == 255 {
                    proof {
                        assert(edge_at(*edges, i as int, j as int));
                    }
                    return true;
                }
                j = j + 1;
            }
            i = i + 1;
        }
        proof {
            if edge_adjacent(*edges, x as int, y as int) {
                assert(false);
            }
        }
        false
    }

    /// Writes one destination row of the edge-guided extraction: locates the
    /// last edge-marked cell of the row, then copies source pixels from the
    /// first edge-marked cell up to it, filling the rest of the row with the
    /// background color.
    fn trim_row(
        &self,
        image: &Buffer<Rgba>,
        edges: &Buffer<u8>,
        object: &ObjectInfo,
        out: &mut Buffer<Rgba>,
        dy: u32,
    )
        requires
            image.wf(),
            edges.wf(),
            edges.width == image.width,
            edges.height == image.height,
            old(out).wf(),
            old(out).width == object.max_x - object.min_x + 1,
            old(out).height == object.max_y - object.min_y + 1,
            dy < old(out).height,
            0 <= dy + object.min_y < image.height,
        ensures
            final(out).wf(),
            final(out).width == old(out).width,
            final(out).height == old(out).height,
            forall|x0: int, y0: int|
                0 <= x0 < old(out).width && 0 <= y0 < old(out).height && y0 != dy
                    ==> final(out).at(x0, y0) == old(out).at(x0, y0),
            forall|x0: int|
                0 <= x0 < old(out).width ==> final(out).at(x0, dy as int) == edges_pixel(
                    *image,
                    *edges,
                    self.bg.color,
                    *object,
                    x0,
                    dy as int,
                ),
    {
        let ghost out0 = *out;
        let new_w: u32 = out.width;
        let sy: i64 = dy as i64 + object.min_y;
        let syu: u32 = sy as u32;

        let mut rightmost: u32 = 0;
        let mut any: bool = false;
        let mut dx: u32 = 0;
        while dx < new_w
            invariant
                image.wf(),
                edges.wf(),
                edges.width == image.width,
                edges.height == image.height,
                new_w == object.max_x - object.min_x + 1,
                sy == dy + object.min_y,
                0 <= sy < image.height,
                syu == sy,
                dx <= new_w,
                any ==> rightmost < dx && row_mark(*edges, *object, rightmost as int, dy as int),
                any ==> forall|d: int|
                    rightmost < d < dx ==> !row_mark(*edges, *object, d, dy as int),
                !any ==> forall|d: int| 0 <= d < dx ==> !row_mark(*edges, *object, d, dy as int),
            decreases new_w - dx,
        {
            let sx: i64 = dx as i64 + object.min_x;
            if 0 <= sx && sx < image.width as i64 {
                let sxu = sx as u32;
                let m = edges.get(sxu, syu) == 255 || self.are_neighbours_edges(
                    edges,
                    sxu,
                    syu,
                );
                proof {
                    assert(m == row_mark(*edges, *object, dx as int, dy as int));
                }
                if m {
                    rightmost = dx;
                    any = true;
                }
            } else {
                proof {
                    assert(!row_mark(*edges, *object, dx as int, dy as int));
                }
            }
            dx = dx + 1;
        }

        let mut leftmost: bool = false;
        let mut dx: u32 = 0;
        while dx < new_w
            invariant
                image.wf(),
                edges.wf(),
                edges.width == image.width,
                edges.height == image.height,
                new_w == object.max_x - object.min_x + 1,
                sy == dy + object.min_y,
                0 <= sy < image.height,
                syu == sy,
                dx <= new_w,
                out.wf(),
                out.width == out0.width,
                out.height == out0.height,
                out0.width == new_w,
                dy < out0.height,
                forall|x0: int, y0: int|
                    0 <= x0 < out0.width && 0 <= y0 < out0.height && y0 != dy
                        ==> out.at(x0, y0) == out0.at(x0, y0),
                forall|x0: int|
                    0 <= x0 < dx ==> out.at(x0, dy as int) == edges_pixel(
                        *image,
                        *edges,
                        self.bg.color,
                        *object,
                        x0,
                        dy as int,
                    ),
                leftmost <==> exists|d: int|
                    0 <= d < dx && row_mark(*edges, *object, d, dy as int),
                any ==> rightmost < new_w && row_mark(
                    *edges,
                    *object,
                    rightmost as int,
                    dy as int,
                ),
                any ==> forall|d: int|
                    rightmost < d < new_w ==> !row_mark(*edges, *object, d, dy as int),
                !any ==> forall|d: int|
                    0 <= d < new_w ==> !row_mark(*edges, *object, d, dy as int),
            decreases new_w - dx,
        {
            let sx: i64 = dx as i64 + object.min_x;
            let in_b = 0 <= sx && sx < image.width as i64;
            let mut m = false;
            if in_b {
                let sxu = sx as u32;
                m = edges.get(sxu, syu) == 255 || self.are_neighbours_edges(edges, sxu, syu);
            }
            proof {
                assert(m == row_mark(*edges, *object, dx as int, dy as int));
            }
            let copy = m || (leftmost && in_b && any && dx <= rightmost);
            proof {
                if m {
                    assert(exists|dl: int|
                        0 <= dl <= dx && row_mark(*edges, *object, dl, dy as int));
                    assert(exists|dr: int|
                        dx <= dr < object.max_x - object.min_x + 1 && row_mark(
                            *edges,
                            *object,
                            dr,
                            dy as int,
                        ));
                } else if copy {
                    assert(exists|dl: int|
                        0 <= dl <= dx && row_mark(*edges, *object, dl, dy as int));
                    assert(dx <= rightmost < object.max_x - object.min_x + 1 && row_mark(
                        *edges,
                        *object,
                        rightmost as int,
                        dy as int,
                    ));
                    assert(exists|dr: int|
                        dx <= dr < object.max_x - object.min_x + 1 && row_mark(
                            *edges,
                            *object,
                            dr,
                            dy as int,
                        ));
                } else {
                    if 0 <= sx < image.width && (exists|dl: int|
                        0 <= dl <= dx && row_mark(*edges, *object, dl, dy as int)) && (
                    exists|dr: int|
                        dx <= dr < object.max_x - object.min_x + 1 && row_mark(
                            *edges,
                            *object,
                            dr,
                            dy as int,
                        )) {
                        let dl = choose|dl: int|
                            0 <= dl <= dx && row_mark(*edges, *object, dl, dy as int);
                        let dr = choose|dr: int|
                            dx <= dr < object.max_x - object.min_x + 1 && row_mark(
                                *edges,
                                *object,
                                dr,
                                dy as int,
                            );
                        assert(dl < dx);
                        assert(leftmost);
                        assert(any);
                        assert(dr <= rightmost);
                        assert(false);
                    }
                    assert(edges_pixel(*image, *edges, self.bg.color, *object, dx as int, dy as int)
                        == self.bg.color);
                }
            }
            let p = if copy {
                image.get(sx as u32, syu)
            } else {
                self.bg.color
            };
            out.set(dx, dy, p);
            if m {
                leftmost = true;
            }
            dx = dx + 1;
        }
    }

    /// Extracts the object under the bounding box read off the edge mask,
    /// trimming each row to the span between its first and last edge-marked
    /// cell and filling everything else, including the part of the box that
    /// leaves the image, with the background color.
    pub fn crop_to_edges(&self, image: &Buffer<Rgba>, edges: &Buffer<u8>) -> (r: Buffer<Rgba>)
        requires
            image.wf(),
            edges.wf(),
            edges.width == image.width,
            edges.height == image.height,
            image.width + 2 * self.padding < u32::MAX,
            image.height + 2 * self.padding < u32::MAX,
            (image.width + 2 * self.padding + 1) * (image.height + 2 * self.padding + 1)
                <= usize::MAX,
        ensures
            r.wf(),
            r.width >= 1,
            r.height >= 1,
            exists|info: ObjectInfo|
                #[trigger] gray_info_post(*edges, self.padding as int, info)
                    && crop_to_edges_post(*image, *edges, self.bg.color, info, r),
    {
        let info = self.object_info_gray(edges);
        proof {
            let w = edges.width as int;
            let h = edges.height as int;
            let p = self.padding as int;
            if info.max_x - p > w / 2 {
                assert(info.max_x - p < w);
            }
            if info.max_y - p > h / 2 {
                assert(info.max_y - p < h);
            }
            assert((info.max_x - info.min_x + 1) * (info.max_y - info.min_y + 1) <= (w + 2 * p
                + 1) * (h + 2 * p + 1)) by (nonlinear_arith)
                requires
                    0 < info.max_x - info.min_x + 1 <= w + 2 * p + 1,
                    0 < info.max_y - info.min_y + 1 <= h + 2 * p + 1,
            ;
        }
        let new_w: u32 = (info.max_x - info.min_x + 1) as u32;
        let new_h: u32 = (info.max_y - info.min_y + 1) as u32;
        let mut out: Buffer<Rgba> = Buffer::new(new_w, new_h, self.bg.color);
        let mut dy: u32 = 0;
        while dy < new_h
            invariant
                image.wf(),
                edges.wf(),
                edges.width == image.width,
                edges.height == image.height,
                out.wf(),
                out.width == new_w,
                out.height == new_h,
                new_w == info.max_x - info.min_x + 1,
                new_h == info.max_y - info.min_y + 1,
                dy <= new_h,
                forall|x0: int, y0: int|
                    0 <= x0 < new_w && 0 <= y0 < dy ==> out.at(x0, y0) == edges_pixel(
                        *image,
                        *edges,
                        self.bg.color,
                        info,
                        x0,
                        y0,
                    ),
                forall|x0: int, y0: int|
                    0 <= x0 < new_w && dy <= y0 < new_h ==> out.at(x0, y0) == self.bg.color,
            decreases new_h - dy,
        {
            let sy: i64 = dy as i64 + info.min_y;
            if 0 <= sy && sy < image.height as i64 {
                self.trim_row(image, edges, &info, &mut out, dy);
            }
            dy = dy + 1;
        }
        out
    }
}

} // verus!
