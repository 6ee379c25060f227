//! The colour lookup table: a small image whose rows are sampled by a cyclic
//! progress and blended between neighbours.

use crate::animation::bitmask::{height_of, width_of};
use crate::interpolate::{lerp, lerp_wide, Fraction};
use image::DynamicImage;
use vstd::arithmetic::div_mod::lemma_fundamental_div_mod_converse;
use vstd::prelude::*;

verus! {

/// The column that holds the colour of the top of the background.
pub const COLUMN_BACKGROUND_TOP: u32 = 0;

/// The column that holds the colour of the bottom of the background.
pub const COLUMN_BACKGROUND_BOTTOM: u32 = 1;

/// The column that holds the colour of the foreground.
pub const COLUMN_FOREGROUND: u32 = 2;

/// A colour of sixteen bits per channel; 65535 is full intensity.
#[derive(Clone, Copy, Debug, PartialEq, Eq, Structural)]
pub struct Color {
    pub r: u16,
    pub g: u16,
    pub b: u16,
}

/// An image of eight bits per channel, rows top to bottom, each pixel as its
/// red, green and blue byte.
#[derive(Clone, Debug, PartialEq, Eq)]
pub struct Colormap {
    pub width: u32,
    pub height: u32,
    pub data: Vec<u8>,
}

/// What is kept of a lookup table when it is stored: its width and its
/// bytes. The height is not kept; the bytes give it.
#[derive(Clone, Debug, PartialEq, Eq)]
pub struct RawImage {
    pub width: u32,
    pub data: Vec<u8>,
}

/// A lookup table as plain values.
pub struct ColormapView {
    pub width: u32,
    pub height: u32,
    pub data: Seq<u8>,
}

impl View for Colormap {
    type V = ColormapView;

    open spec fn view(&self) -> ColormapView {
        ColormapView { width: self.width, height: self.height, data: self.data@ }
    }
}

/// The lookup table that a stored width and stored bytes give, three bytes
/// for every pixel: its height is the number of whole rows, and bytes
/// behind the last whole row are dropped. There is no table of width zero,
/// nor one of more rows than 32 bits can count.
pub open spec fn restored(width: u32, data: Seq<u8>) -> Option<ColormapView> {
    let rows = (data.len() as int) / (width as int) / 3;
    if width == 0 || rows > u32::MAX {
        None
    } else {
        Some(ColormapView { width, height: rows as u32, data: data.take(3 * width * rows) })
    }
}

/// Storing a well-formed lookup table of a width other than zero and
/// restoring it gives the same table.
pub proof fn lemma_restore_stored(map: Colormap)
    requires
        map.wf(),
        map.width != 0,
    ensures
        restored(map.width, map.data@) == Some(map@),
{
    let w = map.width as int;
    let h = map.height as int;
    assert(3 * w * h == (3 * h) * w) by (nonlinear_arith);
    lemma_fundamental_div_mod_converse(3 * w * h, w, 3 * h, 0);
    lemma_fundamental_div_mod_converse(3 * h, 3, h, 0);
    assert(map.data@.take(3 * w * h) == map.data@);
}

/// The bytes of the image that `DynamicImage::into_rgb8` makes of an image,
/// as `ImageBuffer::into_raw` hands them out.
pub uninterp spec fn rgb8_of(image: DynamicImage) -> Seq<u8>;

/// Calls `DynamicImage::into_rgb8` and takes the result apart. The
/// conversion keeps width and height, and the buffer holds at least three
/// bytes for every pixel.
#[verifier::external_body]
fn rgb8_parts(image: DynamicImage) -> (r: (u32, u32, Vec<u8>))
    ensures
        r.0 == width_of(image),
        r.1 == height_of(image),
        r.2@ == rgb8_of(image),
        r.2@.len() >= 3 * r.0 * r.1,
{
    let buffer = image.into_rgb8();
    (buffer.width(), buffer.height(), buffer.into_raw())
}

/// The largest whole number not above `n / d`.
pub open spec fn floor_div(n: int, d: int) -> int {
    n / d
}

/// The smallest whole number not below `n / d`.
pub open spec fn ceil_div(n: int, d: int) -> int {
    (n + d - 1) / d
}

impl Colormap {
    /// The image holds exactly three bytes for every pixel.
    pub open spec fn wf(&self) -> bool {
        self.data@.len() == 3 * self.width * self.height
    }

    /// Channel `c` of the pixel in column `x` of row `y`.
    pub open spec fn channel(&self, x: int, y: int, c: int) -> u8 {
        self.data@[(y * self.width + x) * 3 + c]
    }

    /// Channel `c` of column `x` at progress `t` of the way down the image
    /// and round to its top again, in sixteen bits: with `px` the height
    /// times `t`, the blend from row `floor(px)` to row `ceil(px)`, taken
    /// modulo the height, at the fractional part of `px`.
    pub open spec fn blended(&self, x: int, t: Fraction, c: int) -> u16 {
        let px = self.height * t.num;
        let low = floor_div(px, t.den as int);
        let high = ceil_div(px, t.den as int) % (self.height as int);
        lerp(
            257 * self.channel(x, low, c),
            257 * self.channel(x, high, c),
            px % (t.den as int),
            t.den as int,
        ) as u16
    }

    /// The colour of column `x` at progress `t`.
    pub open spec fn sampled(&self, x: int, t: Fraction) -> Color {
        Color { r: self.blended(x, t, 0), g: self.blended(x, t, 1), b: self.blended(x, t, 2) }
    }

    /// Whether column `x` can be sampled at progress `t`: the image has that
    /// column and a row, and `t` is a ratio below one.
    pub open spec fn can_sample(&self, x: int, t: Fraction) -> bool {
        &&& self.wf()
        &&& 0 <= x < self.width
        &&& 0 < self.height
        &&& t.num < t.den
    }

    /// The table is what a decoded image gives: of its width and height,
    /// with the bytes of its pixels converted to eight bits of red, green
    /// and blue.
    pub open spec fn made_of(&self, image: DynamicImage) -> bool {
        &&& self.wf()
        &&& self.width == width_of(image)
        &&& self.height == height_of(image)
        &&& self.data@ == rgb8_of(image).take(3 * width_of(image) * height_of(image))
    }

    /// The lookup table that a decoded image gives, converted to eight bits
    /// of red, green and blue.
    pub fn new(image: DynamicImage) -> (r: Self)
        ensures
            r.made_of(image),
    {
        let (width, height, mut data) = rgb8_parts(image);
        let have = data.len();
        assert(3 * width * height == 3 * (width * height)) by (nonlinear_arith);
        assert(0 <= width * height) by (nonlinear_arith);
        assert(3 * (width * height) <= have);
        let len = 3 * ((width as usize) * (height as usize));
        data.truncate(len);
        Colormap { width, height, data }
    }

    /// What is kept of the table when it is stored.
    pub fn to_raw(&self) -> (r: RawImage)
        ensures
            r.width == self.width,
            r.data@ == self.data@,
    {
        RawImage { width: self.width, data: self.data.clone() }
    }

    /// The lookup table that a stored table gives, if it gives one.
    pub fn from_raw(raw: RawImage) -> (r: Option<Self>)
        ensures
            match r {
                Some(map) => restored(raw.width, raw.data@) == Some(map@) && map.wf(),
                None => restored(raw.width, raw.data@) is None,
            },
    {
        let RawImage { width, data } = raw;
        if width == 0 {
            return None;
        }
        let rows = data.len() / (width as usize) / 3;
        if rows > u32::MAX as usize {
            return None;
        }
        proof {
            lemma_rows_fit(data@.len() as int, width as int);
        }
        let len = 3 * ((width as usize) * rows);
        let mut data = data;
        data.truncate(len);
        Some(Colormap { width, height: rows as u32, data })
    }

    /// The colour of the top of the background at progress `t`.
    pub fn get_background_top(&self, t: Fraction) -> (r: Color)
        requires
            self.can_sample(COLUMN_BACKGROUND_TOP as int, t),
        ensures
            r == self.sampled(COLUMN_BACKGROUND_TOP as int, t),
    {
        self.get_color(COLUMN_BACKGROUND_TOP, t)
    }

    /// The colour of the bottom of the background at progress `t`.
    pub fn get_background_bottom(&self, t: Fraction) -> (r: Color)
        requires
            self.can_sample(COLUMN_BACKGROUND_BOTTOM as int, t),
        ensures
            r == self.sampled(COLUMN_BACKGROUND_BOTTOM as int, t),
    {
        self.get_color(COLUMN_BACKGROUND_BOTTOM, t)
    }

    /// The colour of the foreground at progress `t`.
    pub fn get_foreground(&self, t: Fraction) -> (r: Color)
        requires
            self.can_sample(COLUMN_FOREGROUND as int, t),
        ensures
            r == self.sampled(COLUMN_FOREGROUND as int, t),
    {
        self.get_color(COLUMN_FOREGROUND, t)
    }

    /// The colour of column `x` at progress `t`.
    pub fn get_color(&self, x: u32, t: Fraction) -> (r: Color)
        requires
            self.can_sample(x as int, t),
        ensures
            r == self.sampled(x as int, t),
    {
        let den = t.den as u128;
        assert(self.height * t.num <= 0xffff_ffff * 0xffff_ffff_ffff_ffff) by (nonlinear_arith)
            requires
                self.height <= 0xffff_ffff,
                t.num <= 0xffff_ffff_ffff_ffff,
        ;
        let px = (self.height as u128) * (t.num as u128);
        let low = px / den;
        let rem = px % den;
        proof {
            lemma_rows_around(self.height as int, t.num as int, t.den as int);
        }
        let low = low as u32;
        let high = if rem == 0 {
            low
        } else {
            (low + 1) % self.height
        };
        let frac = Fraction { num: rem as u64, den: t.den };
        Color {
            r: self.blend_channel(x, low, high, 0, frac),
            g: self.blend_channel(x, low, high, 1, frac),
            b: self.blend_channel(x, low, high, 2, frac),
        }
    }

    /// One channel of the pixel in column `x` of row `y`.
    fn get_channel(&self, x: u32, y: u32, c: usize) -> (r: u8)
        requires
            self.wf(),
            x < self.width,
            y < self.height,
            c < 3,
        ensures
            r == self.channel(x as int, y as int, c as int),
    {
        let len = self.data.len();
        proof {
            lemma_index_fits(self.width as int, self.height as int, x as int, y as int, c as int);
            assert((y * self.width + x) * 3 + c < len);
        }
        self.data[((y as usize) * (self.width as usize) + (x as usize)) * 3 + c]
    }

    /// The blend of one channel between two rows, in sixteen bits.
    fn blend_channel(&self, x: u32, low: u32, high: u32, c: usize, frac: Fraction) -> (r: u16)
        requires
            self.wf(),
            x < self.width,
            low < self.height,
            high < self.height,
            c < 3,
            frac.wf(),
        ensures
            r == lerp(
                257 * self.channel(x as int, low as int, c as int),
                257 * self.channel(x as int, high as int, c as int),
                frac.num as int,
                frac.den as int,
            ) as u16,
    {
        let from = 257 * (self.get_channel(x, low, c) as i128);
        let to = 257 * (self.get_channel(x, high, c) as i128);
        lerp_wide(from, to, frac) as u16
    }
}

/// The rows around the height times `num / den`: the lower one lies in the
/// image, and the upper one is the lower one where the product is whole and
/// the next one else.
proof fn lemma_rows_around(height: int, num: int, den: int)
    requires
        0 < height,
        0 <= num < den,
    ensures
        0 <= (height * num) / den < height,
        0 <= (height * num) % den < den,
        ceil_div(height * num, den) == (height * num) / den + (if (height * num) % den == 0 {
            0int
        } else {
            1int
        }),
{
    let px = height * num;
    let low = px / den;
    let rem = px % den;
    vstd::arithmetic::div_mod::lemma_fundamental_div_mod(px, den);
    vstd::arithmetic::div_mod::lemma_mod_bound(px, den);
    assert(0 <= px < height * den) by (nonlinear_arith)
        requires
            px == height * num,
            0 < height,
            0 <= num < den,
    ;
    assert(0 <= low < height) by (nonlinear_arith)
        requires
            px == den * low + rem,
            0 <= rem < den,
            0 <= px < height * den,
    ;
    if rem == 0 {
        assert(px + den - 1 == low * den + (den - 1)) by (nonlinear_arith)
            requires
                px == den * low + rem,
                rem == 0,
        ;
        lemma_fundamental_div_mod_converse(px + den - 1, den, low, den - 1);
    } else {
        assert(px + den - 1 == (low + 1) * den + (rem - 1)) by (nonlinear_arith)
            requires
                px == den * low + rem,
        ;
        lemma_fundamental_div_mod_converse(px + den - 1, den, low + 1, rem - 1);
    }
}

/// The bytes of a pixel inside the image lie inside its data.
proof fn lemma_index_fits(width: int, height: int, x: int, y: int, c: int)
    requires
        0 <= x < width,
        0 <= y < height,
        0 <= c < 3,
    ensures
        0 <= y * width,
        0 <= (y * width + x) * 3 + c < 3 * width * height,
{
    assert(0 <= y * width && y * width + x < width * height) by (nonlinear_arith)
        requires
            0 <= x < width,
            0 <= y < height,
    ;
    assert(3 * width * height == 3 * (width * height)) by (nonlinear_arith);
}

/// The whole rows of `len` bytes at `width` pixels a row fit into the bytes.
proof fn lemma_rows_fit(len: int, width: int)
    requires
        0 <= len,
        0 < width,
    ensures
        0 <= width * (len / width / 3),
        3 * (width * (len / width / 3)) <= len,
        3 * width * (len / width / 3) == 3 * (width * (len / width / 3)),
{
    let per = len / width;
    let rows = per / 3;
    vstd::arithmetic::div_mod::lemma_fundamental_div_mod(len, width);
    vstd::arithmetic::div_mod::lemma_mod_bound(len, width);
    vstd::arithmetic::div_mod::lemma_div_pos_is_pos(len, width);
    assert(0 <= width * rows && 3 * (width * rows) <= len) by (nonlinear_arith)
        requires
            len == width * per + len % width,
            0 <= len % width,
            0 <= rows,
            3 * rows <= per,
            0 < width,
    ;
    assert(3 * width * rows == 3 * (width * rows)) by (nonlinear_arith);
}

} // verus!
