//! Background classification under a per-channel tolerance, the denoising
//! neighbourhood tests, alpha-to-solid compositing, and the alpha filter.

use vstd::arithmetic::div_mod::lemma_div_is_ordered;
use vstd::arithmetic::div_mod::lemma_div_multiples_vanish;
use vstd::arithmetic::div_mod::lemma_div_pos_is_pos;
use vstd::prelude::*;

use crate::buffer::Buffer;
use crate::pixel::white_rgba;
use crate::pixel::Rgb;
use crate::pixel::Rgba;
use crate::pixel::transparent_black;

verus! {

/// The background model: a reference color and a per-channel tolerance.
#[derive(Clone, Copy, Debug, PartialEq, Eq, Structural)]
pub struct Background {
    pub color: Rgba,
    pub delta: u8,
}

/// The default background model: the white reference color with the default
/// tolerance of 3.
pub open spec fn white_background() -> Background {
    Background { color: white_rgba(), delta: 3 }
}

/// A channel value lies strictly within `delta` of the reference channel.
pub open spec fn channel_close(c: u8, reference: u8, delta: u8) -> bool {
    -(delta as int) < c - reference < delta as int
}

/// A pixel counts as background when it is fully transparent, or when each of
/// its red, green and blue channels lies within the tolerance of the
/// reference color's channel.
pub open spec fn is_background_spec(bg: Background, p: Rgba) -> bool {
    ||| p.a == 0
    ||| {
        &&& channel_close(p.r, bg.color.r, bg.delta)
        &&& channel_close(p.g, bg.color.g, bg.delta)
        &&& channel_close(p.b, bg.color.b, bg.delta)
    }
}

/// The three-pixel horizontal window centred at `(x, y)` lies entirely inside
/// the image and holds only non-background pixels. The window never shrinks at
/// the image border: a location whose window sticks out is not corroborated.
pub open spec fn row_corroborated(b: Buffer<Rgba>, bg: Background, x: int, y: int) -> bool {
    &&& 1 <= x
    &&& x + 1 < b.width
    &&& !is_background_spec(bg, b.at(x - 1, y))
    &&& !is_background_spec(bg, b.at(x, y))
    &&& !is_background_spec(bg, b.at(x + 1, y))
}

/// The three-pixel vertical window centred at `(x, y)` lies entirely inside
/// the image and holds only non-background pixels.
pub open spec fn col_corroborated(b: Buffer<Rgba>, bg: Background, x: int, y: int) -> bool {
    &&& 1 <= y
    &&& y + 1 < b.height
    &&& !is_background_spec(bg, b.at(x, y - 1))
    &&& !is_background_spec(bg, b.at(x, y))
    &&& !is_background_spec(bg, b.at(x, y + 1))
}

/// Linear interpolation of one channel between the background value (weight
/// `255 - a`) and the source value (weight `a`), truncated, not rounded.
pub open spec fn blend_channel(bgc: u8, c: u8, a: u8) -> int {
    (bgc * (255 - a) + c * a) / 255
}

/// A source pixel composited over the model's background color; the alpha
/// channel is dropped.
pub open spec fn blend_pixel(bg: Background, p: Rgba) -> Rgb {
    Rgb {
        r: blend_channel(bg.color.r, p.r, p.a) as u8,
        g: blend_channel(bg.color.g, p.g, p.a) as u8,
        b: blend_channel(bg.color.b, p.b, p.a) as u8,
    }
}

/// What the alpha filter does to one pixel: a pixel whose alpha channel lies
/// strictly below the threshold becomes fully transparent black; every other
/// pixel passes through unchanged.
pub open spec fn filter_pixel(p: Rgba, threshold: u8) -> Rgba {
    if p.a < threshold {
        transparent_black()
    } else {
        p
    }
}

/// The compositing output: same dimensions, every pixel blended over the
/// model's background color.
pub open spec fn set_background_post(bg: Background, src: Buffer<Rgba>, out: Buffer<Rgb>) -> bool {
    &&& out.wf()
    &&& out.width == src.width
    &&& out.height == src.height
    &&& forall|x: int, y: int|
        0 <= x < src.width && 0 <= y < src.height ==> out.at(x, y) == blend_pixel(bg, src.at(x, y))
}

/// The alpha filter's output: same dimensions, every pixel filtered.
pub open spec fn filter_alpha_post(src: Buffer<Rgba>, threshold: u8, out: Buffer<Rgba>) -> bool {
    &&& out.wf()
    &&& out.width == src.width
    &&& out.height == src.height
    &&& forall|x: int, y: int|
        0 <= x < src.width && 0 <= y < src.height
            ==> out.at(x, y) == filter_pixel(src.at(x, y), threshold)
}

/// The blended channel value always fits in one byte.
pub proof fn lemma_blend_channel_bounds(bgc: u8, c: u8, a: u8)
    ensures
        0 <= blend_channel(bgc, c, a) <= 255,
        bgc * (255 - a) + c * a <= 65025,
{
    assert(0 <= bgc * (255 - a) + c * a <= 65025) by (nonlinear_arith)
        requires
            bgc <= 255,
            c <= 255,
            a <= 255,
    ;
    lemma_div_pos_is_pos(bgc * (255 - a) + c * a, 255);
    lemma_div_is_ordered(bgc * (255 - a) + c * a, 65025, 255);
}

/// Compositing a fully opaque pixel returns its own color channels unchanged.
pub proof fn lemma_blend_pixel_opaque(bg: Background, p: Rgba)
    requires
        p.a == 255,
    ensures
        blend_pixel(bg, p) == (Rgb { r: p.r, g: p.g, b: p.b }),
{
    lemma_div_multiples_vanish(p.r as int, 255);
    lemma_div_multiples_vanish(p.g as int, 255);
    lemma_div_multiples_vanish(p.b as int, 255);
}

/// Compositing a fully transparent pixel returns exactly the background color.
pub proof fn lemma_blend_pixel_transparent(bg: Background, p: Rgba)
    requires
        p.a == 0,
    ensures
        blend_pixel(bg, p) == (Rgb { r: bg.color.r, g: bg.color.g, b: bg.color.b }),
{
    lemma_div_multiples_vanish(bg.color.r as int, 255);
    lemma_div_multiples_vanish(bg.color.g as int, 255);
    lemma_div_multiples_vanish(bg.color.b as int, 255);
}

/// Compositing keeps fully opaque pixels and replaces fully transparent ones
/// with the background color, over the whole buffer: no blending happens at
/// either alpha extreme.
pub proof fn lemma_set_background_extremes(bg: Background, src: Buffer<Rgba>, out: Buffer<Rgb>)
    requires
        set_background_post(bg, src, out),
    ensures
        forall|x: int, y: int|
            0 <= x < src.width && 0 <= y < src.height && src.at(x, y).a == 255
                ==> out.at(x, y) == (Rgb {
                    r: src.at(x, y).r,
                    g: src.at(x, y).g,
                    b: src.at(x, y).b,
                }),
        forall|x: int, y: int|
            0 <= x < src.width && 0 <= y < src.height && src.at(x, y).a == 0
                ==> out.at(x, y) == (Rgb { r: bg.color.r, g: bg.color.g, b: bg.color.b }),
{
    assert forall|x: int, y: int|
        0 <= x < src.width && 0 <= y < src.height && src.at(x, y).a == 255
            implies out.at(x, y) == (Rgb {
                r: src.at(x, y).r,
                g: src.at(x, y).g,
                b: src.at(x, y).b,
            }) by {
        lemma_blend_pixel_opaque(bg, src.at(x, y));
    }
    assert forall|x: int, y: int|
        0 <= x < src.width && 0 <= y < src.height && src.at(x, y).a == 0
            implies out.at(x, y) == (Rgb { r: bg.color.r, g: bg.color.g, b: bg.color.b }) by {
        lemma_blend_pixel_transparent(bg, src.at(x, y));
    }
}

/// Filtering a pixel twice with one threshold changes nothing the second time.
pub proof fn lemma_filter_pixel_idempotent(p: Rgba, threshold: u8)
    ensures
        filter_pixel(filter_pixel(p, threshold), threshold) == filter_pixel(p, threshold),
{
}

/// The alpha filter is idempotent: a second pass with the same threshold
/// reproduces the first pass's output pixel for pixel.
pub proof fn lemma_filter_alpha_idempotent(
    src: Buffer<Rgba>,
    threshold: u8,
    once: Buffer<Rgba>,
    twice: Buffer<Rgba>,
)
    requires
        filter_alpha_post(src, threshold, once),
        filter_alpha_post(once, threshold, twice),
    ensures
        twice.width == once.width,
        twice.height == once.height,
        forall|x: int, y: int|
            0 <= x < once.width && 0 <= y < once.height ==> twice.at(x, y) == once.at(x, y),
{
    assert forall|x: int, y: int|
        0 <= x < once.width && 0 <= y < once.height implies twice.at(x, y) == once.at(x, y) by {
        lemma_filter_pixel_idempotent(src.at(x, y), threshold);
    }
}

impl Background {
    /// The default model: the white reference color and a tolerance of 3.
    pub fn white() -> (r: Self)
        ensures
            r == white_background(),
            r.color == white_rgba(),
            r.delta == 3,
    {
        Background { color: Rgba { r: 255, g: 255, b: 255, a: 0 }, delta: 3 }
    }

    /// A model for an explicit RGB reference color, with the default
    /// tolerance of 3; the stored reference carries a zero alpha channel.
    pub fn from_rgb(rgb: Rgb) -> (r: Self)
        ensures
            r.color == (Rgba { r: rgb.r, g: rgb.g, b: rgb.b, a: 0 }),
            r.delta == 3,
    {
        Background { color: Rgba { r: rgb.r, g: rgb.g, b: rgb.b, a: 0 }, delta: 3 }
    }

    /// Classifies one pixel against the model.
    pub fn is_background(&self, pixel: Rgba) -> (r: bool)
        ensures
            r == is_background_spec(*self, pixel),
    {
        if pixel.a == 0 {
            return true;
        }
        channel_within(pixel.r, self.color.r, self.delta)
            && channel_within(pixel.g, self.color.g, self.delta)
            && channel_within(pixel.b, self.color.b, self.delta)
    }

    /// The horizontal denoising test: true when the location is isolated
    /// noise, i.e. when its three-pixel row window is not fully
    /// non-background.
    pub fn is_row_neighbours_white(&self, image: &Buffer<Rgba>, x: u32, y: u32) -> (r: bool)
        requires
            image.wf(),
            x < image.width,
            y < image.height,
        ensures
            r == !row_corroborated(*image, *self, x as int, y as int),
    {
        let mut count: u8 = 0;
        if x >= 1 && !self.is_background(image.get(x - 1, y)) {
            count = count + 1;
        }
        if !self.is_background(image.get(x, y)) {
            count = count + 1;
        }
        if x + 1 < image.width && !self.is_background(image.get(x + 1, y)) {
            count = count + 1;
        }
        count < 3
    }

    /// The vertical denoising test: true when the location is isolated noise,
    /// i.e. when its three-pixel column window is not fully non-background.
    pub fn is_column_neighbours_white(&self, image: &Buffer<Rgba>, x: u32, y: u32) -> (r: bool)
        requires
            image.wf(),
            x < image.width,
            y < image.height,
        ensures
            r == !col_corroborated(*image, *self, x as int, y as int),
    {
        let mut count: u8 = 0;
        if y >= 1 && !self.is_background(image.get(x, y - 1)) {
            count = count + 1;
        }
        if !self.is_background(image.get(x, y)) {
            count = count + 1;
        }
        if y + 1 < image.height && !self.is_background(image.get(x, y + 1)) {
            count = count + 1;
        }
        count < 3
    }

    /// Composites one pixel over the model's background color, dropping the
    /// alpha channel.
    pub fn rgb_pixel_with_background(&self, pixel: Rgba) -> (r: Rgb)
        ensures
            r == blend_pixel(*self, pixel),
    {
        Rgb {
            r: blend_channel_exec(self.color.r, pixel.r, pixel.a),
            g: blend_channel_exec(self.color.g, pixel.g, pixel.a),
            b: blend_channel_exec(self.color.b, pixel.b, pixel.a),
        }
    }

    /// Composites a whole RGBA buffer over the model's background color,
    /// producing an RGB buffer of the same dimensions.
    pub fn set_background(&self, image: &Buffer<Rgba>) -> (r: Buffer<Rgb>)
        requires
            image.wf(),
        ensures
            set_background_post(*self, *image, r),
    {
        let w = image.width;
        let h = image.height;
        // reading the length shows the allocation of the same size fits
        let _len: usize = image.data.len();
        let mut out: Buffer<Rgb> = Buffer::new(w, h, Rgb { r: 0, g: 0, b: 0 });
        let mut y: u32 = 0;
        while y < h
            invariant
                y <= h,
                image.wf(),
                w == image.width,
                h == image.height,
                out.wf(),
                out.width == w,
                out.height == h,
                forall|x0: int, y0: int|
                    0 <= x0 < w && 0 <= y0 < y
                        ==> out.at(x0, y0) == blend_pixel(*self, image.at(x0, y0)),
            decreases h - y,
        {
            let mut x: u32 = 0;
            while x < w
                invariant
                    x <= w,
                    y < h,
                    image.wf(),
                    w == image.width,
                    h == image.height,
                    out.wf(),
                    out.width == w,
                    out.height == h,
                    forall|x0: int, y0: int|
                        0 <= x0 < w && 0 <= y0 < y
                            ==> out.at(x0, y0) == blend_pixel(*self, image.at(x0, y0)),
                    forall|x0: int|
                        0 <= x0 < x ==> out.at(x0, y as int) == blend_pixel(
                            *self,
                            image.at(x0, y as int),
                        ),
                decreases w - x,
            {
                let p = self.rgb_pixel_with_background(image.get(x, y));
                out.set(x, y, p);
                x = x + 1;
            }
            y = y + 1;
        }
        out
    }
}

/// One interpolated channel, computed in 32-bit arithmetic.
pub(crate) fn blend_channel_exec(bgc: u8, c: u8, a: u8) -> (r: u8)
    ensures
        r == blend_channel(bgc, c, a),
{
    proof {
        lemma_blend_channel_bounds(bgc, c, a);
    }
    let v: u32 = (bgc as u32) * (255 - a as u32) + (c as u32) * (a as u32);
    (v / 255) as u8
}

/// True when the channel value lies strictly within `delta` of the reference.
fn channel_within(c: u8, reference: u8, delta: u8) -> (r: bool)
    ensures
        r == channel_close(c, reference, delta),
{
    let diff = if c >= reference {
        c - reference
    } else {
        reference - c
    };
    diff < delta
}

/// Replaces every pixel whose alpha channel lies strictly below the threshold
/// with fully transparent black; every other pixel passes through unchanged.
pub fn filter_alpha(image: &Buffer<Rgba>, alpha_filter: u8) -> (r: Buffer<Rgba>)
    requires
        image.wf(),
    ensures
        filter_alpha_post(*image, alpha_filter, r),
{
    let w = image.width;
    let h = image.height;
    // reading the length shows the allocation of the same size fits
    let _len: usize = image.data.len();
    let mut out: Buffer<Rgba> = Buffer::new(w, h, Rgba { r: 0, g: 0, b: 0, a: 0 });
    let mut y: u32 = 0;
    while y < h
        invariant
            y <= h,
            image.wf(),
            w == image.width,
            h == image.height,
            out.wf(),
            out.width == w,
            out.height == h,
            forall|x0: int, y0: int|
                0 <= x0 < w && 0 <= y0 < y
                    ==> out.at(x0, y0) == filter_pixel(image.at(x0, y0), alpha_filter),
        decreases h - y,
    {
        let mut x: u32 = 0;
        while x < w
            invariant
                x <= w,
                y < h,
                image.wf(),
                w == image.width,
                h == image.height,
                out.wf(),
                out.width == w,
                out.height == h,
                forall|x0: int, y0: int|
                    0 <= x0 < w && 0 <= y0 < y
                        ==> out.at(x0, y0) == filter_pixel(image.at(x0, y0), alpha_filter),
                forall|x0: int|
                    0 <= x0 < x ==> out.at(x0, y as int) == filter_pixel(
                        image.at(x0, y as int),
                        alpha_filter,
                    ),
            decreases w - x,
        {
            let p = image.get(x, y);
            let q = if p.a < alpha_filter {
                Rgba { r: 0, g: 0, b: 0, a: 0 }
            } else {
                p
            };
            out.set(x, y, q);
            x = x + 1;
        }
        y = y + 1;
    }
    out
}

} // verus!
