//! One bit per pixel: the encoding of a decoded raster image as a packed
//! mask, for single frames and for filmstrips of frames stacked top to
//! bottom.

use crate::animation::error::LoadError;
use bitvec::order::Lsb0;
use bitvec::vec::BitVec;
use image::DynamicImage;
use image::GenericImageView;
use vstd::prelude::*;

verus! {

/// A decoded raster image of the `image` crate, opaque to the verifier.
#[verifier::external_type_specification]
#[verifier::external_body]
pub struct ExDynamicImage(DynamicImage);

/// The width of an image in pixels, as `DynamicImage::width` reports it.
pub uninterp spec fn width_of(image: DynamicImage) -> u32;

/// The height of an image in pixels, as `DynamicImage::height` reports it.
pub uninterp spec fn height_of(image: DynamicImage) -> u32;

/// The red, green, blue and alpha channel of the pixel in column `x` of row
/// `y`, as `GenericImageView::get_pixel` reports them.
pub uninterp spec fn pixel_of(image: DynamicImage, x: u32, y: u32) -> (u8, u8, u8, u8);

/// `DynamicImage::width` is a function of the image alone.
pub assume_specification[ DynamicImage::width ](image: &DynamicImage) -> (w: u32)
    ensures
        w == width_of(*image),
;

/// `DynamicImage::height` is a function of the image alone.
pub assume_specification[ DynamicImage::height ](image: &DynamicImage) -> (h: u32)
    ensures
        h == height_of(*image),
;

/// Calls `GenericImageView::get_pixel`, which converts the pixel to eight
/// bits per channel and panics outside the image: the position must lie
/// inside it. The channels are a function of the image and the position.
#[verifier::external_body]
fn pixel(image: &DynamicImage, x: u32, y: u32) -> (p: (u8, u8, u8, u8))
    requires
        x < width_of(*image),
        y < height_of(*image),
    ensures
        p == pixel_of(*image, x, y),
{
    let rgba = image.get_pixel(x, y);
    (rgba.0[0], rgba.0[1], rgba.0[2], rgba.0[3])
}

/// A growing sequence of bits, kept by `bitvec::vec::BitVec` in 32-bit
/// words, the first bit in the lowest place of the first word.
#[verifier::external_body]
pub struct BitBuffer {
    bits: BitVec<u32, Lsb0>,
}

/// The bits that a buffer holds, in the order in which they were pushed.
pub uninterp spec fn bits_of(buffer: BitBuffer) -> Seq<bool>;

/// Whether the places of the last word that hold no bit yet are zero.
pub uninterp spec fn tail_clear(buffer: BitBuffer) -> bool;

/// The bit in place `i` of a sequence of 32-bit words, counted from the
/// lowest place of the first word.
pub open spec fn word_bit(words: Seq<u32>, i: int) -> bool {
    (words[i / 32] >> ((i % 32) as u32)) & 1 == 1
}

/// `BitVec::new` gives a buffer without bits and without storage.
#[verifier::external_body]
fn buffer_new() -> (buffer: BitBuffer)
    ensures
        bits_of(buffer) == Seq::<bool>::empty(),
        tail_clear(buffer),
{
    BitBuffer { bits: BitVec::new() }
}

/// `BitVec::push` appends one bit. It panics beyond an eighth of the address
/// range, so the buffer must be shorter than that. A word that it adds
/// starts out as zero and it writes no place but the new bit's, so a clear
/// tail stays clear.
#[verifier::external_body]
fn buffer_push(buffer: &mut BitBuffer, bit: bool)
    requires
        bits_of(*old(buffer)).len() < usize::MAX / 8,
    ensures
        bits_of(*final(buffer)) == bits_of(*old(buffer)).push(bit),
        tail_clear(*old(buffer)) ==> tail_clear(*final(buffer)),
{
    buffer.bits.push(bit)
}

/// `BitVec::into_vec` hands out the words that hold the bits: as many as the
/// bits need, bit `i` in place `i % 32` of word `i / 32`. The places behind
/// the last bit are zero where the tail was clear.
#[verifier::external_body]
fn buffer_into_words(buffer: BitBuffer) -> (words: Vec<u32>)
    ensures
        words@.len() == (bits_of(buffer).len() + 31) / 32,
        forall|i: int| 0 <= i < bits_of(buffer).len() ==> word_bit(words@, i) == bits_of(buffer)[i],
        tail_clear(buffer) ==> forall|i: int|
            bits_of(buffer).len() <= i < 32 * words@.len() ==> !word_bit(words@, i),
{
    buffer.bits.into_vec()
}

/// Which pixels count as set.
#[derive(Clone, Copy, Debug, PartialEq, Eq, Structural)]
pub enum Rule {
    /// A pixel is set where its red channel is not zero.
    Red,
    /// A pixel is set where none of its red, green and blue channels is zero.
    AllChannels,
}

/// Whether a pixel of the given channels counts as set under a rule.
pub open spec fn is_set(rule: Rule, p: (u8, u8, u8, u8)) -> bool {
    match rule {
        Rule::Red => p.0 != 0,
        Rule::AllChannels => p.0 != 0 && p.1 != 0 && p.2 != 0,
    }
}

/// Whether a pixel of the given channels counts as set under a rule.
pub fn pixel_set(rule: Rule, p: (u8, u8, u8, u8)) -> (r: bool)
    ensures
        r == is_set(rule, p),
{
    match rule {
        Rule::Red => p.0 != 0,
        Rule::AllChannels => p.0 != 0 && p.1 != 0 && p.2 != 0,
    }
}

/// The mask of `rows` rows of an image from row `top` on, row by row and
/// within a row from left to right.
pub open spec fn mask_of(image: DynamicImage, top: u32, rows: u32, rule: Rule) -> Seq<bool> {
    Seq::new(
        (width_of(image) * rows) as nat,
        |i: int|
            is_set(
                rule,
                pixel_of(
                    image,
                    (i % (width_of(image) as int)) as u32,
                    (top + i / (width_of(image) as int)) as u32,
                ),
            ),
    )
}

/// The width `x` and the height `y` of a frame in pixels.
#[derive(Clone, Copy, Debug, PartialEq, Eq, Structural)]
pub struct Size {
    pub x: u32,
    pub y: u32,
}

/// A bit mask of a frame: one bit per pixel, packed into 32-bit words.
#[derive(Clone, Debug, PartialEq, Eq)]
pub struct Image {
    pub data: Vec<u32>,
    pub size: Size,
}

impl Image {
    /// The words hold exactly the given bits: bit `i` in place `i % 32` of
    /// word `i / 32`, no word more than the bits need, and zero in the
    /// places behind the last bit.
    pub open spec fn holds(&self, bits: Seq<bool>) -> bool {
        &&& self.data@.len() == (bits.len() + 31) / 32
        &&& forall|i: int|
            0 <= i < 32 * self.data@.len() ==> word_bit(self.data@, i) == (i < bits.len()
                && bits[i])
    }

    /// The mask of rows `top .. top + rows` of an image.
    fn encode_rows(image: &DynamicImage, top: u32, rows: u32, rule: Rule) -> (r: Image)
        requires
            top + rows <= height_of(*image),
            fits_mask(width_of(*image), rows),
        ensures
            r.size == (Size { x: width_of(*image), y: rows }),
            r.holds(mask_of(*image, top, rows, rule)),
    {
        let width = image.width();
        let ghost w = width as int;
        let ghost mask = mask_of(*image, top, rows, rule);
        let mut buffer = buffer_new();
        let mut row: u32 = 0;
        while row < rows
            invariant
                row <= rows,
                width == width_of(*image),
                w == width as int,
                top + rows <= height_of(*image),
                w * rows <= usize::MAX / 8,
                mask == mask_of(*image, top, rows, rule),
                tail_clear(buffer),
                bits_of(buffer) == mask.take(row * w),
            decreases rows - row,
        {
            let mut x: u32 = 0;
            while x < width
                invariant
                    x <= width,
                    row < rows,
                    width == width_of(*image),
                    w == width as int,
                    top + rows <= height_of(*image),
                    w * rows <= usize::MAX / 8,
                    mask == mask_of(*image, top, rows, rule),
                    tail_clear(buffer),
                    bits_of(buffer) == mask.take(row * w + x),
                decreases width - x,
            {
                let ghost at = row * w + x;
                proof {
                    lemma_place(w, rows as int, row as int, x as int);
                }
                let p = pixel(image, x, top + row);
                let bit = pixel_set(rule, p);
                buffer_push(&mut buffer, bit);
                proof {
                    assert(mask[at] == bit);
                    assert(mask.take(at).push(bit) == mask.take(at + 1));
                }
                x += 1;
            }
            proof {
                assert(row * w + w == (row + 1) * w) by (nonlinear_arith);
            }
            row += 1;
        }
        proof {
            assert(mask.take(rows * w) == mask) by {
                assert(rows * w == w * rows) by (nonlinear_arith);
            }
        }
        let data = buffer_into_words(buffer);
        Image { data, size: Size { x: width, y: rows } }
    }

    /// Encodes a whole image as one frame: a bit is set where the red channel
    /// of its pixel is not zero.
    pub fn encode(image: &DynamicImage) -> (r: Result<Image, LoadError>)
        ensures
            match r {
                Ok(frame) => {
                    &&& fits_mask(width_of(*image), height_of(*image))
                    &&& frame.size == (Size { x: width_of(*image), y: height_of(*image) })
                    &&& frame.holds(mask_of(*image, 0, height_of(*image), Rule::Red))
                },
                Err(e) => e == LoadError::TooLarge && !fits_mask(
                    width_of(*image),
                    height_of(*image),
                ),
            },
    {
        let width = image.width();
        let height = image.height();
        if !fits(width, height) {
            return Err(LoadError::TooLarge);
        }
        Ok(Self::encode_rows(image, 0, height, Rule::Red))
    }

    /// Cuts a filmstrip into `frames` frames of equal height, top to bottom,
    /// and encodes each: a bit is set where none of the red, green and blue
    /// channels of its pixel is zero. A height that is not a whole number of
    /// frames is an error; no row is dropped.
    pub fn encode_filmstrip(image: &DynamicImage, frames: u32) -> (r: Result<Vec<Image>, LoadError>)
        ensures
            match r {
                Ok(strip) => filmstrip_error(*image, frames) is None && is_filmstrip(
                    strip@,
                    *image,
                    frames,
                ),
                Err(e) => filmstrip_error(*image, frames) == Some(e),
            },
    {
        if frames == 0 {
            return Err(LoadError::NoFrames);
        }
        let width = image.width();
        let height = image.height();
        if height % frames != 0 {
            return Err(LoadError::IndivisibleHeight);
        }
        let rows = height / frames;
        if !fits(width, rows) {
            return Err(LoadError::TooLarge);
        }
        proof {
            assert(rows * frames == height) by (nonlinear_arith)
                requires
                    rows == height / frames,
                    height % frames == 0,
                    frames > 0,
            ;
        }
        let mut out: Vec<Image> = Vec::new();
        let mut frame: u32 = 0;
        while frame < frames
            invariant
                frame <= frames,
                width == width_of(*image),
                height == height_of(*image),
                rows == height / frames,
                rows * frames == height,
                width * rows <= usize::MAX / 8,
                out@.len() == frame,
                forall|k: int|
                    0 <= k < frame ==> is_frame(#[trigger] out@[k], *image, k, rows),
            decreases frames - frame,
        {
            proof {
                assert(rows * frame + rows <= rows * frames) by (nonlinear_arith)
                    requires
                        frame < frames,
                        0 <= rows,
                ;
            }
            let encoded = Self::encode_rows(image, rows * frame, rows, Rule::AllChannels);
            out.push(encoded);
            frame += 1;
        }
        Ok(out)
    }
}

/// Why an image cannot be cut into `frames` frames, if it cannot: there is
/// no frame to cut, the height is not a whole number of frames, or a frame
/// has more pixels than a mask can hold.
pub open spec fn filmstrip_error(image: DynamicImage, frames: u32) -> Option<LoadError> {
    if frames == 0 {
        Some(LoadError::NoFrames)
    } else if height_of(image) % frames != 0 {
        Some(LoadError::IndivisibleHeight)
    } else if !fits_mask(width_of(image), (height_of(image) / frames) as u32) {
        Some(LoadError::TooLarge)
    } else {
        None
    }
}

/// Frame `k` of a filmstrip whose frames are `rows` rows high.
pub open spec fn is_frame(frame: Image, image: DynamicImage, k: int, rows: u32) -> bool {
    &&& frame.size == (Size { x: width_of(image), y: rows })
    &&& frame.holds(mask_of(image, (rows * k) as u32, rows, Rule::AllChannels))
}

/// The frames of a filmstrip cut into `count` frames of equal height.
pub open spec fn is_filmstrip(frames: Seq<Image>, image: DynamicImage, count: u32) -> bool {
    &&& frames.len() == count
    &&& forall|k: int|
        0 <= k < count ==> is_frame(
            #[trigger] frames[k],
            image,
            k,
            (height_of(image) / count) as u32,
        )
}

/// Whether a frame of the given size has few enough pixels for a bit mask:
/// a mask holds as many bits as an eighth of the address range.
pub open spec fn fits_mask(width: u32, rows: u32) -> bool {
    width * rows <= usize::MAX / 8
}

/// Whether a frame of the given size has few enough pixels for a bit mask.
fn fits(width: u32, rows: u32) -> (r: bool)
    ensures
        r == fits_mask(width, rows),
{
    assert(width * rows <= 0xffff_ffff * 0xffff_ffff) by (nonlinear_arith)
        requires
            width <= 0xffff_ffff,
            rows <= 0xffff_ffff,
    ;
    (width as u64) * (rows as u64) <= (usize::MAX / 8) as u64
}

/// Pixel `x` of row `row` has place `row * w + x` in a mask of rows of
/// width `w`.
proof fn lemma_place(w: int, rows: int, row: int, x: int)
    requires
        0 <= x < w,
        0 <= row < rows,
    ensures
        row * w + x < w * rows,
        (row * w + x) % w == x,
        (row * w + x) / w == row,
{
    assert(row * w + x < w * rows) by (nonlinear_arith)
        requires
            0 <= x < w,
            0 <= row < rows,
    ;
    vstd::arithmetic::div_mod::lemma_fundamental_div_mod_converse(row * w + x, w, row, x);
}

} // verus!
