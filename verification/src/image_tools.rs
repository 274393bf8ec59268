//! The free-function variant of cropping and squaring, fixed to the white
//! background model; the square fill of this variant composites the content
//! over white on the way out.

use vstd::prelude::*;

use crate::background::blend_channel;
use crate::background::blend_channel_exec;
use crate::background::white_background;
use crate::background::Background;
use crate::buffer::Buffer;
use crate::crop::extract_post;
use crate::crop::object_info_post;
use crate::crop::Crop;
use crate::crop::ObjectInfo;
use crate::pixel::white_rgba;
use crate::pixel::Rgba;

verus! {

/// A pixel composited over white, channel by channel; the alpha channel is
/// kept as it was.
pub open spec fn on_white_pixel(p: Rgba) -> Rgba {
    Rgba {
        r: blend_channel(255, p.r, p.a) as u8,
        g: blend_channel(255, p.g, p.a) as u8,
        b: blend_channel(255, p.b, p.a) as u8,
        a: p.a,
    }
}

/// The pixel the white square fill writes at `(x, y)`: the source pixel
/// composited over white inside the centred content, transparent white on the
/// border.
pub open spec fn square_white_pixel(src: Buffer<Rgba>, x: int, y: int) -> Rgba {
    let w = src.width as int;
    let h = src.height as int;
    let side = if w < h {
        h
    } else {
        w
    };
    let pad_x = (side - w + 1) / 2;
    let pad_y = (side - h + 1) / 2;
    if pad_x <= x < pad_x + w && pad_y <= y < pad_y + h {
        on_white_pixel(src.at(x - pad_x, y - pad_y))
    } else {
        white_rgba()
    }
}

/// The white square fill's output: a square image comes back as a plain
/// copy; any other image is centred on a square canvas of its longer side,
/// composited over white, with a transparent-white border.
pub open spec fn fill_to_square_white_post(src: Buffer<Rgba>, out: Buffer<Rgba>) -> bool {
    let w = src.width as int;
    let h = src.height as int;
    if w == h {
        &&& out.wf()
        &&& out.width == w
        &&& out.height == h
        &&& forall|x: int, y: int|
            0 <= x < w && 0 <= y < h ==> out.at(x, y) == src.at(x, y)
    } else {
        let side = if w < h {
            h
        } else {
            w
        };
        &&& out.wf()
        &&& out.width == side
        &&& out.height == side
        &&& forall|x: int, y: int|
            0 <= x < side && 0 <= y < side ==> out.at(x, y) == square_white_pixel(src, x, y)
    }
}

/// The white square fill is idempotent: its output is always square, and a
/// square input comes back as a plain copy.
pub proof fn lemma_fill_to_square_white_idempotent(
    src: Buffer<Rgba>,
    once: Buffer<Rgba>,
    twice: Buffer<Rgba>,
)
    requires
        fill_to_square_white_post(src, once),
        fill_to_square_white_post(once, twice),
    ensures
        twice.width == once.width,
        twice.height == once.height,
        forall|x: int, y: int|
            0 <= x < once.width && 0 <= y < once.height ==> twice.at(x, y) == once.at(x, y),
{
}

/// One pixel composited over white, keeping its alpha channel.
fn pixel_on_white(p: Rgba) -> (r: Rgba)
    ensures
        r == on_white_pixel(p),
{
    Rgba {
        r: blend_channel_exec(255, p.r, p.a),
        g: blend_channel_exec(255, p.g, p.a),
        b: blend_channel_exec(255, p.b, p.a),
        a: p.a,
    }
}

/// Crops the corroborated non-white foreground out of the image under the
/// shared extraction contract: the padded box sized inclusively on both
/// axes, in-bounds pixels copied as they are, and the part of the box that
/// leaves the image filled with the white background color.
pub fn crop_white(image: &Buffer<Rgba>, padding: u32) -> (r: Buffer<Rgba>)
    requires
        image.wf(),
        image.width + 2 * padding < u32::MAX,
        image.height + 2 * padding < u32::MAX,
        (image.width + 2 * padding + 1) * (image.height + 2 * padding + 1) <= usize::MAX,
    ensures
        r.wf(),
        r.width >= 1,
        r.height >= 1,
        exists|info: ObjectInfo|
            #[trigger] object_info_post(*image, white_background(), padding as int, info)
                && extract_post(*image, white_rgba(), info, r),
{
    let cropper = Crop::new(padding, Background::white());
    cropper.crop_to_object(image)
}

/// Pads the image to a square canvas on its longer side, compositing the
/// centred content over white and filling the border with transparent white;
/// a square image comes back as a plain copy.
pub fn fill_to_square(image: &Buffer<Rgba>) -> (r: Buffer<Rgba>)
    requires
        image.wf(),
        image.width * image.width <= usize::MAX,
        image.height * image.height <= usize::MAX,
    ensures
        fill_to_square_white_post(*image, r),
{
    let w = image.width;
    let h = image.height;
    if w == h {
        return image.duplicate();
    }
    let side = if w < h {
        h
    } else {
        w
    };
    let dx = side - w;
    let dy = side - h;
    let pad_x = dx / 2 + dx % 2;
    let pad_y = dy / 2 + dy % 2;
    let mut out: Buffer<Rgba> = Buffer::new(side, side, Rgba { r: 255, g: 255, b: 255, a: 0 });
    let mut y: u32 = 0;
    while y < side
        invariant
            y <= side,
            image.wf(),
            w == image.width,
            h == image.height,
            w != h,
            side == if w < h { h as int } else { w as int },
            pad_x == (side - w + 1) / 2,
            pad_y == (side - h + 1) / 2,
            pad_x + w <= side,
            pad_y + h <= side,
            out.wf(),
            out.width == side,
            out.height == side,
            forall|x0: int, y0: int|
                0 <= x0 < side && 0 <= y0 < y ==> out.at(x0, y0) == square_white_pixel(
                    *image,
                    x0,
                    y0,
                ),
        decreases side - y,
    {
        let mut x: u32 = 0;
        while x < side
            invariant
                x <= side,
                y < side,
                image.wf(),
                w == image.width,
                h == image.height,
                w != h,
                side == if w < h { h as int } else { w as int },
                pad_x == (side - w + 1) / 2,
                pad_y == (side - h + 1) / 2,
                pad_x + w <= side,
                pad_y + h <= side,
                out.wf(),
                out.width == side,
                out.height == side,
                forall|x0: int, y0: int|
                    0 <= x0 < side && 0 <= y0 < y ==> out.at(x0, y0) == square_white_pixel(
                        *image,
                        x0,
                        y0,
                    ),
                forall|x0: int|
                    0 <= x0 < x ==> out.at(x0, y as int) == square_white_pixel(
                        *image,
                        x0,
                        y as int,
                    ),
            decreases side - x,
        {
            let p = if x >= pad_x && x - pad_x < w && y >= pad_y && y - pad_y < h {
                pixel_on_white(image.get(x - pad_x, y - pad_y))
            } else {
                Rgba { r: 255, g: 255, b: 255, a: 0 }
            };
            out.set(x, y, p);
            x = x + 1;
        }
        y = y + 1;
    }
    out
}

} // verus!
