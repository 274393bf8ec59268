//! Bounding-box detection with noise suppression, object extraction with
//! background fill, square-canvas padding, and edge-mask-guided extraction.

use vstd::prelude::*;

use crate::background::col_corroborated;
use crate::background::is_background_spec;
use crate::background::row_corroborated;
use crate::background::Background;
use crate::buffer::Buffer;
use crate::pixel::Rgba;

verus! {

/// A bounding box in image-pixel coordinates, inclusive on all four edges,
/// already expanded by the configured padding. It may extend outside the
/// source image: consumers must fill the part that falls outside.
#[derive(Clone, Copy, Debug, PartialEq, Eq, Structural)]
pub struct ObjectInfo {
    pub min_x: i64,
    pub min_y: i64,
    pub max_x: i64,
    pub max_y: i64,
}

/// The per-image defect reported when a bounding box would produce a buffer
/// of zero or negative extent.
#[derive(Clone, Copy, Debug, PartialEq, Eq, Structural)]
pub enum CropError {
    DegenerateGeometry,
}

/// Cropping configuration: a padding margin and the background model.
#[derive(Clone, Copy, Debug, PartialEq, Eq, Structural)]
pub struct Crop {
    pub padding: u32,
    pub bg: Background,
}

/// The pixel at `(x, y)` is non-background and vertically corroborated by its
/// column neighbours, so it may move the horizontal extents of the box.
pub open spec fn x_extender(b: Buffer<Rgba>, bg: Background, x: int, y: int) -> bool {
    &&& 0 <= x < b.width
    &&& 0 <= y < b.height
    &&& !is_background_spec(bg, b.at(x, y))
    &&& col_corroborated(b, bg, x, y)
}

/// The pixel at `(x, y)` is non-background and horizontally corroborated by
/// its row neighbours, so it may move the vertical extents of the box.
pub open spec fn y_extender(b: Buffer<Rgba>, bg: Background, x: int, y: int) -> bool {
    &&& 0 <= x < b.width
    &&& 0 <= y < b.height
    &&& !is_background_spec(bg, b.at(x, y))
    &&& row_corroborated(b, bg, x, y)
}

/// What the background scan returns. Before padding, each extent is the
/// furthest corroborated non-background coordinate in its direction, starting
/// from the image centre and never moving inward; an image with no
/// corroborated foreground keeps the degenerate centred box. The stored
/// extents are then expanded by the padding on every side.
pub open spec fn object_info_post(
    b: Buffer<Rgba>,
    bg: Background,
    padding: int,
    info: ObjectInfo,
) -> bool {
    let w = b.width as int;
    let h = b.height as int;
    let mnx = info.min_x + padding;
    let mxx = info.max_x - padding;
    let mny = info.min_y + padding;
    let mxy = info.max_y - padding;
    &&& 0 <= mnx <= w / 2
    &&& (mnx < w / 2 ==> exists|y: int| x_extender(b, bg, mnx, y))
    &&& w / 2 <= mxx
    &&& (mxx > w / 2 ==> exists|y: int| x_extender(b, bg, mxx, y))
    &&& 0 <= mny <= h / 2
    &&& (mny < h / 2 ==> exists|x: int| y_extender(b, bg, x, mny))
    &&& h / 2 <= mxy
    &&& (mxy > h / 2 ==> exists|x: int| y_extender(b, bg, x, mxy))
    &&& forall|x: int, y: int| x_extender(b, bg, x, y) ==> mnx <= x <= mxx
    &&& forall|x: int, y: int| y_extender(b, bg, x, y) ==> mny <= y <= mxy
}

/// The source pixel an extraction writes at destination cell `(dx, dy)`: the
/// source sample at the box-offset coordinate, or the background color where
/// that coordinate falls outside the source image.
pub open spec fn extract_pixel(
    src: Buffer<Rgba>,
    bgc: Rgba,
    info: ObjectInfo,
    dx: int,
    dy: int,
) -> Rgba {
    let sx = dx + info.min_x;
    let sy = dy + info.min_y;
    if 0 <= sx < src.width && 0 <= sy < src.height {
        src.at(sx, sy)
    } else {
        bgc
    }
}

/// The extraction output for a non-degenerate box: one cell per box
/// coordinate, each holding the corresponding source pixel or the background
/// fill.
pub open spec fn extract_post(
    src: Buffer<Rgba>,
    bgc: Rgba,
    info: ObjectInfo,
    out: Buffer<Rgba>,
) -> bool {
    &&& out.wf()
    &&& out.width == info.max_x - info.min_x + 1
    &&& out.height == info.max_y - info.min_y + 1
    &&& forall|dx: int, dy: int|
        0 <= dx < out.width && 0 <= dy < out.height ==> out.at(dx, dy) == extract_pixel(
            src,
            bgc,
            info,
            dx,
            dy,
        )
}

/// Extracting a box that lies fully inside the image bounds copies the source
/// region pixel for pixel: no fill is written anywhere.
pub proof fn lemma_extract_inside_copies(
    src: Buffer<Rgba>,
    bgc: Rgba,
    info: ObjectInfo,
    out: Buffer<Rgba>,
)
    requires
        extract_post(src, bgc, info, out),
        0 <= info.min_x,
        info.max_x < src.width,
        0 <= info.min_y,
        info.max_y < src.height,
    ensures
        forall|dx: int, dy: int|
            0 <= dx < out.width && 0 <= dy < out.height ==> out.at(dx, dy) == src.at(
                dx + info.min_x,
                dy + info.min_y,
            ),
{
}

/// The pixel a square fill writes at `(x, y)`: the source pixel shifted by
/// the leading border, or the background color on the border itself. The
/// longer side becomes the square's side; an odd difference puts the larger
/// border on the leading (top or left) edge.
pub open spec fn square_fill_pixel(src: Buffer<Rgba>, bgc: Rgba, x: int, y: int) -> Rgba {
    let w = src.width as int;
    let h = src.height as int;
    let side = if w < h {
        h
    } else {
        w
    };
    let pad_x = (side - w + 1) / 2;
    let pad_y = (side - h + 1) / 2;
    if pad_x <= x < pad_x + w && pad_y <= y < pad_y + h {
        src.at(x - pad_x, y - pad_y)
    } else {
        bgc
    }
}

/// The square-fill output: a square canvas on the longer side, the source
/// centred with the leading border taking the extra pixel of an odd
/// difference, the border filled with the background color.
pub open spec fn fill_to_square_post(src: Buffer<Rgba>, bgc: Rgba, out: Buffer<Rgba>) -> bool {
    let w = src.width as int;
    let h = src.height as int;
    let side = if w < h {
        h
    } else {
        w
    };
    &&& out.wf()
    &&& out.width == side
    &&& out.height == side
    &&& forall|x: int, y: int|
        0 <= x < side && 0 <= y < side ==> out.at(x, y) == square_fill_pixel(src, bgc, x, y)
}

/// Filling to a square is idempotent: the first application already returns
/// a square canvas, so a second application reproduces it pixel for pixel.
pub proof fn lemma_fill_to_square_idempotent(
    src: Buffer<Rgba>,
    bgc: Rgba,
    once: Buffer<Rgba>,
    twice: Buffer<Rgba>,
)
    requires
        fill_to_square_post(src, bgc, once),
        fill_to_square_post(once, bgc, twice),
    ensures
        twice.width == once.width,
        twice.height == once.height,
        forall|x: int, y: int|
            0 <= x < once.width && 0 <= y < once.height ==> twice.at(x, y) == once.at(x, y),
{
    assert forall|x: int, y: int|
        0 <= x < once.width && 0 <= y < once.height implies twice.at(x, y) == once.at(x, y) by {
        assert(twice.at(x, y) == square_fill_pixel(once, bgc, x, y));
    }
}

/// A buffer made only of background pixels keeps the centred degenerate
/// default box: the detector does not inflate it to the full image.
pub proof fn lemma_object_info_all_background(
    b: Buffer<Rgba>,
    bg: Background,
    padding: int,
    info: ObjectInfo,
)
    requires
        forall|x: int, y: int|
            0 <= x < b.width && 0 <= y < b.height ==> is_background_spec(bg, b.at(x, y)),
        object_info_post(b, bg, padding, info),
    ensures
        info.min_x == b.width as int / 2 - padding,
        info.max_x == b.width as int / 2 + padding,
        info.min_y == b.height as int / 2 - padding,
        info.max_y == b.height as int / 2 + padding,
{
    let w = b.width as int;
    let h = b.height as int;
    if info.min_x + padding < w / 2 {
        assert(false);
    }
    if info.max_x - padding > w / 2 {
        assert(false);
    }
    if info.min_y + padding < h / 2 {
        assert(false);
    }
    if info.max_y - padding > h / 2 {
        assert(false);
    }
}

/// With padding 0, cropping an all-background image collapses to a single
/// extracted pixel, the one at the image centre, rather than the full image.
pub proof fn lemma_crop_all_background_single_pixel(
    b: Buffer<Rgba>,
    bg: Background,
    info: ObjectInfo,
    out: Buffer<Rgba>,
)
    requires
        forall|x: int, y: int|
            0 <= x < b.width && 0 <= y < b.height ==> is_background_spec(bg, b.at(x, y)),
        object_info_post(b, bg, 0, info),
        extract_post(b, bg.color, info, out),
    ensures
        out.width == 1,
        out.height == 1,
        b.width >= 1 && b.height >= 1 ==> out.at(0, 0) == b.at(
            b.width as int / 2,
            b.height as int / 2,
        ),
{
    lemma_object_info_all_background(b, bg, 0, info);
    assert(out.at(0, 0) == extract_pixel(b, bg.color, info, 0, 0));
}

impl Crop {
    /// A cropper with the given padding margin and background model.
    pub fn new(padding: u32, bg: Background) -> (r: Self)
        ensures
            r.padding == padding,
            r.bg == bg,
    {
        Crop { padding, bg }
    }

    /// Scans the whole image row-major for the minimal rectangle around the
    /// corroborated foreground, starting from the degenerate centred box, then
    /// expands it by the padding on every side.
    pub fn object_info(&self, image: &Buffer<Rgba>) -> (info: ObjectInfo)
        requires
            image.wf(),
        ensures
            object_info_post(*image, self.bg, self.padding as int, info),
    {
        let w = image.width;
        let h = image.height;
        let mut min_x: u32 = w / 2;
        let mut min_y: u32 = h / 2;
        let mut max_x: u32 = w / 2;
        let mut max_y: u32 = h / 2;

        let mut y: u32 = 0;
        while y < h
            invariant
                y <= h,
                image.wf(),
                w == image.width,
                h == image.height,
                min_x <= w / 2 && w / 2 <= max_x,
                min_y <= h / 2 && h / 2 <= max_y,
                min_x < w / 2 ==> exists|yy: int| x_extender(*image, self.bg, min_x as int, yy),
                max_x > w / 2 ==> exists|yy: int| x_extender(*image, self.bg, max_x as int, yy),
                min_y < h / 2 ==> exists|xx: int| y_extender(*image, self.bg, xx, min_y as int),
                max_y > h / 2 ==> exists|xx: int| y_extender(*image, self.bg, xx, max_y as int),
                forall|x0: int, y0: int|
                    y0 < y && x_extender(*image, self.bg, x0, y0) ==> min_x <= x0 <= max_x,
                forall|x0: int, y0: int|
                    y0 < y && y_extender(*image, self.bg, x0, y0) ==> min_y <= y0 <= max_y,
            decreases h - y,
        {
            let mut x: u32 = 0;
            while x < w
                invariant
                    x <= w,
                    y < h,
                    image.wf(),
                    w == image.width,
                    h == image.height,
                    min_x <= w / 2 && w / 2 <= max_x,
                    min_y <= h / 2 && h / 2 <= max_y,
                    min_x < w / 2 ==> exists|yy: int|
                        x_extender(*image, self.bg, min_x as int, yy),
                    max_x > w / 2 ==> exists|yy: int|
                        x_extender(*image, self.bg, max_x as int, yy),
                    min_y < h / 2 ==> exists|xx: int|
                        y_extender(*image, self.bg, xx, min_y as int),
                    max_y > h / 2 ==> exists|xx: int|
                        y_extender(*image, self.bg, xx, max_y as int),
                    forall|x0: int, y0: int|
                        (y0 < y || (y0 == y && x0 < x)) && x_extender(*image, self.bg, x0, y0)
                            ==> min_x <= x0 <= max_x,
                    forall|x0: int, y0: int|
                        (y0 < y || (y0 == y && x0 < x)) && y_extender(*image, self.bg, x0, y0)
                            ==> min_y <= y0 <= max_y,
                decreases w - x,
            {
                if !self.bg.is_background(image.get(x, y)) {
                    if x < min_x && !self.bg.is_column_neighbours_white(image, x, y) {
                        min_x = x;
                        proof {
                            assert(x_extender(*image, self.bg, x as int, y as int));
                        }
                    }
                    if y < min_y && !self.bg.is_row_neighbours_white(image, x, y) {
                        min_y = y;
                        proof {
                            assert(y_extender(*image, self.bg, x as int, y as int));
                        }
                    }
                    if x > max_x && !self.bg.is_column_neighbours_white(image, x, y) {
                        max_x = x;
                        proof {
                            assert(x_extender(*image, self.bg, x as int, y as int));
                        }
                    }
                    if y > max_y && !self.bg.is_row_neighbours_white(image, x, y) {
                        max_y = y;
                        proof {
                            assert(y_extender(*image, self.bg, x as int, y as int));
                        }
                    }
                }
                x = x + 1;
            }
            y = y + 1;
        }

        ObjectInfo {
            min_x: min_x as i64 - self.padding as i64,
            min_y: min_y as i64 - self.padding as i64,
            max_x: max_x as i64 + self.padding as i64,
            max_y: max_y as i64 + self.padding as i64,
        }
    }

    /// Materializes the sub-image under a bounding box: each destination
    /// pixel takes the source pixel at the box-offset coordinate, or the
    /// background color where that coordinate falls outside the source. A box
    /// of zero or negative extent is reported as a defect instead of being
    /// propagated as a wrong-sized buffer.
    pub fn get_object(&self, image: &Buffer<Rgba>, object: &ObjectInfo) -> (r: Result<
        Buffer<Rgba>,
        CropError,
    >)
        requires
            image.wf(),
            object.min_x <= object.max_x && object.min_y <= object.max_y ==> {
                &&& object.max_x - object.min_x < u32::MAX
                &&& object.max_y - object.min_y < u32::MAX
                &&& (object.max_x - object.min_x + 1) * (object.max_y - object.min_y + 1)
                    <= usize::MAX
            },
        ensures
            r is Ok <==> object.min_x <= object.max_x && object.min_y <= object.max_y,
            r is Ok ==> extract_post(*image, self.bg.color, *object, r->Ok_0),
            r is Err ==> r->Err_0 == CropError::DegenerateGeometry,
    {
        if object.max_x < object.min_x || object.max_y < object.min_y {
            return Err(CropError::DegenerateGeometry);
        }
        let new_w: u32 = (object.max_x - object.min_x + 1) as u32;
        let new_h: u32 = (object.max_y - object.min_y + 1) as u32;
        let mut out: Buffer<Rgba> = Buffer::new(new_w, new_h, self.bg.color);
        let mut dy: u32 = 0;
        while dy < new_h
            invariant
                dy <= new_h,
                image.wf(),
                out.wf(),
                out.width == new_w,
                out.height == new_h,
                new_w == object.max_x - object.min_x + 1,
                new_h == object.max_y - object.min_y + 1,
                forall|x0: int, y0: int|
                    0 <= x0 < new_w && 0 <= y0 < dy ==> out.at(x0, y0) == extract_pixel(
                        *image,
                        self.bg.color,
                        *object,
                        x0,
                        y0,
                    ),
            decreases new_h - dy,
        {
            let mut dx: u32 = 0;
            while dx < new_w
                invariant
                    dx <= new_w,
                    dy < new_h,
                    image.wf(),
                    out.wf(),
                    out.width == new_w,
                    out.height == new_h,
                    new_w == object.max_x - object.min_x + 1,
                    new_h == object.max_y - object.min_y + 1,
                    forall|x0: int, y0: int|
                        0 <= x0 < new_w && 0 <= y0 < dy ==> out.at(x0, y0) == extract_pixel(
                            *image,
                            self.bg.color,
                            *object,
                            x0,
                            y0,
                        ),
                    forall|x0: int|
                        0 <= x0 < dx ==> out.at(x0, dy as int) == extract_pixel(
                            *image,
                            self.bg.color,
                            *object,
                            x0,
                            dy as int,
                        ),
                decreases new_w - dx,
            {
                let sx: i64 = dx as i64 + object.min_x;
                let sy: i64 = dy as i64 + object.min_y;
                let p = if 0 <= sx && sx < image.width as i64 && 0 <= sy && sy
                    < image.height as i64 {
                    image.get(sx as u32, sy as u32)
                } else {
                    self.bg.color
                };
                out.set(dx, dy, p);
                dx = dx + 1;
            }
            dy = dy + 1;
        }
        Ok(out)
    }

    /// Detects the bounding box of the corroborated foreground and extracts
    /// it, filling with the background color where the padded box leaves the
    /// image.
    pub fn crop_to_object(&self, image: &Buffer<Rgba>) -> (r: Buffer<Rgba>)
        requires
            image.wf(),
            image.width + 2 * self.padding < u32::MAX,
            image.height + 2 * self.padding < u32::MAX,
            (image.width + 2 * self.padding + 1) * (image.height + 2 * self.padding + 1)
                <= usize::MAX,
        ensures
            r.wf(),
            r.width >= 1,
            r.height >= 1,
            exists|info: ObjectInfo|
                #[trigger] object_info_post(*image, self.bg, self.padding as int, info)
                    && extract_post(*image, self.bg.color, info, r),
    {
        let info = self.object_info(image);
        proof {
            let w = image.width as int;
            let h = image.height as int;
            let p = self.padding as int;
            if info.max_x - p > w / 2 {
                assert(info.max_x - p < w);
            }
            if info.max_y - p > h / 2 {
                assert(info.max_y - p < h);
            }
            assert((info.max_x - info.min_x + 1) * (info.max_y - info.min_y + 1) <= (w + 2 * p
                + 1) * (h + 2 * p + 1)) by (nonlinear_arith)
                requires
                    0 < info.max_x - info.min_x + 1 <= w + 2 * p + 1,
                    0 < info.max_y - info.min_y + 1 <= h + 2 * p + 1,
            ;
        }
        let res = self.get_object(image, &info);
        match res {
            Ok(out) => out,
            Err(_) => {
                proof {
                    assert(false);
                }
                vstd::pervasive::unreached()
            },
        }
    }

    /// Pads the image to a square canvas on its longer side, centring the
    /// content; an odd difference puts the extra border pixel on the leading
    /// (top or left) edge. The border takes the background color. A square
    /// image comes back as an equivalent copy.
    pub fn fill_to_square(&self, image: &Buffer<Rgba>) -> (r: Buffer<Rgba>)
        requires
            image.wf(),
            image.width * image.width <= usize::MAX,
            image.height * image.height <= usize::MAX,
        ensures
            fill_to_square_post(*image, self.bg.color, r),
    {
        let w = image.width;
        let h = image.height;
        if w == h {
            return image.duplicate();
        }
        let side = if w < h {
            h
        } else {
            w
        };
        let dx = side - w;
        let dy = side - h;
        let pad_x = dx / 2 + dx % 2;
        let pad_y = dy / 2 + dy % 2;
        let mut out: Buffer<Rgba> = Buffer::new(side, side, self.bg.color);
        let mut y: u32 = 0;
        while y < side
            invariant
                y <= side,
                image.wf(),
                w == image.width,
                h == image.height,
                side == if w < h { h as int } else { w as int },
                pad_x == (side - w + 1) / 2,
                pad_y == (side - h + 1) / 2,
                pad_x + w <= side,
                pad_y + h <= side,
                out.wf(),
                out.width == side,
                out.height == side,
                forall|x0: int, y0: int|
                    0 <= x0 < side && 0 <= y0 < y ==> out.at(x0, y0) == square_fill_pixel(
                        *image,
                        self.bg.color,
                        x0,
                        y0,
                    ),
            decreases side - y,
        {
            let mut x: u32 = 0;
            while x < side
                invariant
                    x <= side,
                    y < side,
                    image.wf(),
                    w == image.width,
                    h == image.height,
                    side == if w < h { h as int } else { w as int },
                    pad_x == (side - w + 1) / 2,
                    pad_y == (side - h + 1) / 2,
                    pad_x + w <= side,
                    pad_y + h <= side,
                    out.wf(),
                    out.width == side,
                    out.height == side,
                    forall|x0: int, y0: int|
                        0 <= x0 < side && 0 <= y0 < y ==> out.at(x0, y0) == square_fill_pixel(
                            *image,
                            self.bg.color,
                            x0,
                            y0,
                        ),
                    forall|x0: int|
                        0 <= x0 < x ==> out.at(x0, y as int) == square_fill_pixel(
                            *image,
                            self.bg.color,
                            x0,
                            y as int,
                        ),
                decreases side - x,
            {
                let p = if x >= pad_x && x - pad_x < w && y >= pad_y && y - pad_y < h {
                    image.get(x - pad_x, y - pad_y)
                } else {
                    self.bg.color
                };
                out.set(x, y, p);
                x = x + 1;
            }
            y = y + 1;
        }
        out
    }
}

} // verus!
