//! Pixel buffers.
//!
//! A [`Bitmap`] is a colour image and a [`Mask`] a single-channel opacity
//! image. Both keep their pixels in a buffer of the `image` crate, which the
//! verifier cannot look into. This file therefore names what a buffer holds
//! (its width, its height, its pixels, and for a colour image its bytes) and
//! states, for each buffer operation that the library calls, what the
//! operation does to those names. Those statements are taken from the
//! `image` crate's source and are not proved: they are the functions marked
//! `external_body`. The public methods of the two types, at the end of the
//! file, are proved from them.

use vstd::prelude::*;

verus! {

/// A pixel: red, green, blue and alpha, in that order.
pub type Color = (u8, u8, u8, u8);

/// The pixel that shows nothing: all four channels are zero.
pub open spec fn transparent() -> Color {
    (0u8, 0u8, 0u8, 0u8)
}

/// The pixel at `(x, y)` of an image that is `width` pixels wide and whose
/// bytes are `data`: the rows from the top, each row from the left, four
/// bytes to a pixel.
pub open spec fn raw_pixel(data: Seq<u8>, width: int, x: int, y: int) -> Color {
    let first = 4 * (y * width + x);
    (data[first], data[first + 1], data[first + 2], data[first + 3])
}

/// A colour image of four 8-bit channels per pixel, held in an
/// `image::RgbaImage`.
#[verifier::external_body]
pub struct Bitmap {
    buf: image::RgbaImage,
}

/// The width of a colour image, in pixels.
pub uninterp spec fn bitmap_width(img: Bitmap) -> nat;

/// The height of a colour image, in pixels.
pub uninterp spec fn bitmap_height(img: Bitmap) -> nat;

/// The pixels of a colour image, by `(x, y)`, with `x` counted from the left
/// edge and `y` from the top edge.
pub uninterp spec fn bitmap_pixels(img: Bitmap) -> Map<(int, int), (u8, u8, u8, u8)>;

/// The bytes of the buffer behind a colour image: the rows from the top,
/// each row from the left, four bytes to a pixel, and after the last pixel
/// whatever else the buffer was given.
pub uninterp spec fn bitmap_bytes(img: Bitmap) -> Seq<u8>;

/// What a colour image is to a contract: its size, its pixels, and the bytes
/// of its buffer.
pub struct BitmapView {
    pub width: nat,
    pub height: nat,
    pub pixels: Map<(int, int), Color>,
    pub bytes: Seq<u8>,
}

impl BitmapView {
    /// Whether `(x, y)` is a pixel of the image.
    pub open spec fn contains(self, x: int, y: int) -> bool {
        0 <= x < self.width && 0 <= y < self.height
    }

    /// The pixel at `(x, y)`.
    #[verifier::inline]
    pub open spec fn at(self, x: int, y: int) -> Color {
        self.pixels[(x, y)]
    }
}

impl View for Bitmap {
    type V = BitmapView;

    open spec fn view(&self) -> BitmapView {
        BitmapView {
            width: bitmap_width(*self),
            height: bitmap_height(*self),
            pixels: bitmap_pixels(*self),
            bytes: bitmap_bytes(*self),
        }
    }
}

/// `image::ImageBuffer::dimensions` on a colour image: the width and the
/// height that the image was made with. Every way of making an image checks
/// that the length of a row and of the whole image, in bytes, fits in
/// `usize` and is no more than the length of its buffer, and a vector holds
/// no more than `isize::MAX` bytes: so the size is one that a buffer can
/// hold.
#[verifier::external_body]
pub(crate) fn bitmap_dimensions(img: &Bitmap) -> (dims: (u32, u32))
    ensures
        dims.0 == bitmap_width(*img),
        dims.1 == bitmap_height(*img),
        4 * dims.0 <= usize::MAX,
        4 * dims.0 * dims.1 <= isize::MAX,
{
    img.buf.dimensions()
}

/// `image::ImageBuffer::get_pixel` on a colour image: the pixel at `(x, y)`.
/// The call panics outside the image, which `requires` leaves out.
#[verifier::external_body]
pub(crate) fn bitmap_get(img: &Bitmap, x: u32, y: u32) -> (pixel: Color)
    requires
        x < bitmap_width(*img),
        y < bitmap_height(*img),
    ensures
        pixel == bitmap_pixels(*img)[(x as int, y as int)],
{
    let p = img.buf.get_pixel(x, y);
    (p.0[0], p.0[1], p.0[2], p.0[3])
}

/// `image::ImageBuffer::put_pixel` on a colour image: the pixel at `(x, y)`
/// becomes `pixel`; the size, every other pixel and the length of the buffer
/// stay. The call panics outside the image, which `requires` leaves out.
#[verifier::external_body]
pub(crate) fn bitmap_put(img: &mut Bitmap, x: u32, y: u32, pixel: Color)
    requires
        x < bitmap_width(*old(img)),
        y < bitmap_height(*old(img)),
    ensures
        bitmap_width(*final(img)) == bitmap_width(*old(img)),
        bitmap_height(*final(img)) == bitmap_height(*old(img)),
        bitmap_pixels(*final(img)) == bitmap_pixels(*old(img)).insert(
            (x as int, y as int),
            pixel,
        ),
        bitmap_bytes(*final(img)).len() == bitmap_bytes(*old(img)).len(),
{
    img.buf.put_pixel(x, y, image::Rgba([pixel.0, pixel.1, pixel.2, pixel.3]));
}

/// `image::ImageBuffer::from_raw` for a colour image: an image of the given
/// size with `data` as its buffer, which holds the pixels row by row from
/// the top, each row from the left, four bytes to a pixel. The outside
/// function refuses `data` when it is shorter than the image, or when the
/// length of a row in bytes does not fit in `usize`.
#[verifier::external_body]
pub(crate) fn bitmap_from_raw(width: u32, height: u32, data: Vec<u8>) -> (res: Option<Bitmap>)
    ensures
        (res is Some) == (4 * width <= usize::MAX && 4 * width * height <= data@.len()),
        res matches Some(img) ==> bitmap_width(img) == width && bitmap_height(img) == height
            && bitmap_bytes(img) == data@ && forall|x: int, y: int|
            0 <= x < width && 0 <= y < height ==> #[trigger] bitmap_pixels(img)[(x, y)]
                == raw_pixel(data@, width as int, x, y),
{
    match image::RgbaImage::from_raw(width, height, data) {
        Some(buf) => Some(Bitmap { buf }),
        None => None,
    }
}

/// `image::ImageBuffer::into_raw` on a colour image: the buffer of the
/// image, which holds the pixels as [`bitmap_from_raw`] reads them. The
/// buffer may be longer than the image needs.
#[verifier::external_body]
pub(crate) fn bitmap_into_raw(img: Bitmap) -> (data: Vec<u8>)
    ensures
        data@ == bitmap_bytes(img),
        4 * bitmap_width(img) * bitmap_height(img) <= data@.len(),
        forall|x: int, y: int|
            0 <= x < bitmap_width(img) && 0 <= y < bitmap_height(img) ==> #[trigger] raw_pixel(
                data@,
                bitmap_width(img) as int,
                x,
                y,
            ) == bitmap_pixels(img)[(x, y)],
{
    img.buf.into_raw()
}

/// `image::ImageBuffer::new` for a colour image: an image of the given size
/// in which every channel of every pixel is zero, over a buffer of just the
/// bytes that the image needs. The call panics when the length of a row or
/// of the whole buffer, in bytes, is more than a vector can hold, which
/// `requires` leaves out.
#[verifier::external_body]
pub(crate) fn bitmap_new(width: u32, height: u32) -> (img: Bitmap)
    requires
        4 * width <= usize::MAX,
        4 * width * height <= isize::MAX,
    ensures
        bitmap_width(img) == width,
        bitmap_height(img) == height,
        forall|x: int, y: int|
            0 <= x < width && 0 <= y < height ==> #[trigger] bitmap_pixels(img)[(x, y)] == (
                0u8,
                0u8,
                0u8,
                0u8,
            ),
        bitmap_bytes(img).len() == 4 * width * height,
        forall|i: int| 0 <= i < 4 * width * height ==> #[trigger] bitmap_bytes(img)[i] == 0u8,
{
    Bitmap { buf: image::RgbaImage::new(width, height) }
}

/// `Clone::clone` on a colour image: an image of the same size with the same
/// pixels, over a copy of the buffer.
#[verifier::external_body]
pub(crate) fn bitmap_clone(img: &Bitmap) -> (copy: Bitmap)
    ensures
        bitmap_width(copy) == bitmap_width(*img),
        bitmap_height(copy) == bitmap_height(*img),
        bitmap_pixels(copy) == bitmap_pixels(*img),
        bitmap_bytes(copy) == bitmap_bytes(*img),
{
    Bitmap { buf: img.buf.clone() }
}

/// `image::imageops::crop_imm` followed by `image::SubImage::to_image`: a new
/// image that holds the `width` by `height` pixels of `img` whose top left
/// pixel is `(left, top)`, over a buffer of just the bytes that it needs.
/// Stated only for a rectangle that lies inside `img`; the outside function
/// would shrink any other to what lies inside.
#[verifier::external_body]
pub(crate) fn bitmap_crop(img: &Bitmap, left: u32, top: u32, width: u32, height: u32) -> (part:
    Bitmap)
    requires
        left + width <= bitmap_width(*img),
        top + height <= bitmap_height(*img),
    ensures
        bitmap_width(part) == width,
        bitmap_height(part) == height,
        forall|x: int, y: int|
            0 <= x < width && 0 <= y < height ==> #[trigger] bitmap_pixels(part)[(x, y)]
                == bitmap_pixels(*img)[(left + x, top + y)],
        bitmap_bytes(part).len() == 4 * width * height,
{
    Bitmap { buf: image::imageops::crop_imm(&img.buf, left, top, width, height).to_image() }
}

/// `image::imageops::replace`: each pixel of `above` takes the place of the
/// pixel of `below` that is `left` columns and `top` rows further on; the
/// size of `below`, its other pixels and the length of its buffer stay.
/// Stated only for an `above` that lies inside `below`; the outside function
/// would clip any other.
#[verifier::external_body]
pub(crate) fn bitmap_replace(below: &mut Bitmap, above: &Bitmap, left: u32, top: u32)
    requires
        left + bitmap_width(*above) <= bitmap_width(*old(below)),
        top + bitmap_height(*above) <= bitmap_height(*old(below)),
    ensures
        bitmap_width(*final(below)) == bitmap_width(*old(below)),
        bitmap_height(*final(below)) == bitmap_height(*old(below)),
        forall|x: int, y: int|
            0 <= x < bitmap_width(*old(below)) && 0 <= y < bitmap_height(*old(below))
                ==> #[trigger] bitmap_pixels(*final(below))[(x, y)] == (if left <= x < left
                + bitmap_width(*above) && top <= y < top + bitmap_height(*above) {
                bitmap_pixels(*above)[(x - left, y - top)]
            } else {
                bitmap_pixels(*old(below))[(x, y)]
            }),
        bitmap_bytes(*final(below)).len() == bitmap_bytes(*old(below)).len(),
{
    image::imageops::replace(&mut below.buf, &above.buf, left as i64, top as i64);
}

/// An opacity image of one 8-bit channel per pixel, held in an
/// `image::GrayImage`: 255 keeps a pixel as it is, 0 hides it.
#[verifier::external_body]
pub struct Mask {
    buf: image::GrayImage,
}

/// The width of an opacity image, in pixels.
pub uninterp spec fn mask_width(mask: Mask) -> nat;

/// The height of an opacity image, in pixels.
pub uninterp spec fn mask_height(mask: Mask) -> nat;

/// The values of an opacity image, by `(x, y)`, with `x` counted from the
/// left edge and `y` from the top edge.
pub uninterp spec fn mask_pixels(mask: Mask) -> Map<(int, int), u8>;

/// What an opacity image is to a contract: its size and its values.
pub struct MaskView {
    pub width: nat,
    pub height: nat,
    pub pixels: Map<(int, int), u8>,
}

impl MaskView {
    /// Whether `(x, y)` is a pixel of the image.
    pub open spec fn contains(self, x: int, y: int) -> bool {
        0 <= x < self.width && 0 <= y < self.height
    }

    /// The value at `(x, y)`.
    #[verifier::inline]
    pub open spec fn at(self, x: int, y: int) -> u8 {
        self.pixels[(x, y)]
    }
}

impl View for Mask {
    type V = MaskView;

    open spec fn view(&self) -> MaskView {
        MaskView {
            width: mask_width(*self),
            height: mask_height(*self),
            pixels: mask_pixels(*self),
        }
    }
}

/// `image::ImageBuffer::from_pixel` for an opacity image: an image of the
/// given size in which every pixel holds `value`. The call panics when the
/// buffer would be larger than a vector can be, which `requires` leaves out.
#[verifier::external_body]
pub(crate) fn mask_filled(width: u32, height: u32, value: u8) -> (mask: Mask)
    requires
        width * height <= isize::MAX,
    ensures
        mask_width(mask) == width,
        mask_height(mask) == height,
        forall|x: int, y: int|
            0 <= x < width && 0 <= y < height ==> #[trigger] mask_pixels(mask)[(x, y)] == value,
{
    Mask { buf: image::GrayImage::from_pixel(width, height, image::Luma([value])) }
}

/// `image::ImageBuffer::dimensions` on an opacity image: the width and the
/// height that the image was made with.
#[verifier::external_body]
pub(crate) fn mask_dimensions(mask: &Mask) -> (dims: (u32, u32))
    ensures
        dims.0 == mask_width(*mask),
        dims.1 == mask_height(*mask),
{
    mask.buf.dimensions()
}

/// `image::ImageBuffer::get_pixel` on an opacity image: the value at
/// `(x, y)`. The call panics outside the image, which `requires` leaves out.
#[verifier::external_body]
pub(crate) fn mask_get(mask: &Mask, x: u32, y: u32) -> (value: u8)
    requires
        x < mask_width(*mask),
        y < mask_height(*mask),
    ensures
        value == mask_pixels(*mask)[(x as int, y as int)],
{
    mask.buf.get_pixel(x, y).0[0]
}

/// `image::ImageBuffer::put_pixel` on an opacity image: the value at
/// `(x, y)` becomes `value`; the size and every other value stay. The call
/// panics outside the image, which `requires` leaves out.
#[verifier::external_body]
pub(crate) fn mask_put(mask: &mut Mask, x: u32, y: u32, value: u8)
    requires
        x < mask_width(*old(mask)),
        y < mask_height(*old(mask)),
    ensures
        mask_width(*final(mask)) == mask_width(*old(mask)),
        mask_height(*final(mask)) == mask_height(*old(mask)),
        mask_pixels(*final(mask)) == mask_pixels(*old(mask)).insert((x as int, y as int), value),
{
    mask.buf.put_pixel(x, y, image::Luma([value]));
}

/// Whether an image of the given size, with `channels` bytes per pixel, can
/// be held in one buffer on this machine: the length of a row fits in
/// `usize`, and the length of the whole buffer is one that a vector can have.
pub open spec fn buffer_fits(width: int, height: int, channels: int) -> bool {
    channels * width <= usize::MAX && channels * width * height <= isize::MAX
}

/// Decides [`buffer_fits`].
pub fn fits_in_buffer(width: u32, height: u32, channels: u8) -> (fits: bool)
    ensures
        fits == buffer_fits(width as int, height as int, channels as int),
{
    let w: u128 = width as u128;
    let h: u128 = height as u128;
    let c: u128 = channels as u128;
    assert(c * w <= 0xff * 0xffff_ffff) by (nonlinear_arith)
        requires
            c <= 0xff,
            w <= 0xffff_ffff,
    ;
    let row: u128 = c * w;
    assert(row * h <= 0xff * 0xffff_ffff * 0xffff_ffff) by (nonlinear_arith)
        requires
            row <= 0xff * 0xffff_ffff,
            h <= 0xffff_ffff,
    ;
    row <= usize::MAX as u128 && row * h <= isize::MAX as u128
}

impl Bitmap {
    /// Makes an image of the given size from its bytes: the rows from the
    /// top, each row from the left, four bytes to a pixel. Bytes beyond the
    /// last pixel are kept and not shown. `None` when `data` is shorter than
    /// the image, or when the length of a row in bytes does not fit in
    /// `usize`.
    pub fn from_raw(width: u32, height: u32, data: Vec<u8>) -> (res: Option<Bitmap>)
        ensures
            res is Some <==> 4 * width <= usize::MAX && 4 * width * height <= data@.len(),
            res matches Some(img) ==> img@.width == width && img@.height == height
                && img@.bytes == data@ && forall|x: int, y: int|
                img@.contains(x, y) ==> #[trigger] img@.at(x, y) == raw_pixel(
                    data@,
                    width as int,
                    x,
                    y,
                ),
    {
        bitmap_from_raw(width, height, data)
    }

    /// Gives the buffer of the image, which holds the pixels as
    /// [`Bitmap::from_raw`] reads them.
    pub fn into_raw(self) -> (data: Vec<u8>)
        ensures
            data@ == self@.bytes,
            4 * self@.width * self@.height <= data@.len(),
            forall|x: int, y: int|
                self@.contains(x, y) ==> #[trigger] raw_pixel(data@, self@.width as int, x, y)
                    == self@.at(x, y),
    {
        bitmap_into_raw(self)
    }

    /// The width of the image, in pixels. An image that exists has a size
    /// that a buffer can hold.
    pub fn width(&self) -> (w: u32)
        ensures
            w == self@.width,
            buffer_fits(self@.width as int, self@.height as int, 4),
    {
        bitmap_dimensions(self).0
    }

    /// The height of the image, in pixels. An image that exists has a size
    /// that a buffer can hold.
    pub fn height(&self) -> (h: u32)
        ensures
            h == self@.height,
            buffer_fits(self@.width as int, self@.height as int, 4),
    {
        bitmap_dimensions(self).1
    }

    /// The pixel at `(x, y)`, or `None` where the image has no such pixel.
    pub fn get_pixel(&self, x: u32, y: u32) -> (res: Option<Color>)
        ensures
            res == (if self@.contains(x as int, y as int) {
                Some(self@.at(x as int, y as int))
            } else {
                None
            }),
    {
        let (width, height) = bitmap_dimensions(self);
        if x < width && y < height {
            Some(bitmap_get(self, x, y))
        } else {
            None
        }
    }
}

impl Mask {
    /// Makes an opacity image of the given size in which every pixel holds
    /// `value`, or `None` when an image of that size cannot be held in one
    /// buffer.
    pub fn filled(width: u32, height: u32, value: u8) -> (res: Option<Mask>)
        ensures
            res is Some <==> buffer_fits(width as int, height as int, 1),
            res matches Some(mask) ==> mask@.width == width && mask@.height == height
                && forall|x: int, y: int| mask@.contains(x, y) ==> #[trigger] mask@.at(x, y) == value,
    {
        if fits_in_buffer(width, height, 1) {
            Some(mask_filled(width, height, value))
        } else {
            None
        }
    }

    /// The width of the image, in pixels.
    pub fn width(&self) -> (w: u32)
        ensures
            w == self@.width,
    {
        mask_dimensions(self).0
    }

    /// The height of the image, in pixels.
    pub fn height(&self) -> (h: u32)
        ensures
            h == self@.height,
    {
        mask_dimensions(self).1
    }

    /// The value at `(x, y)`, or `None` where the image has no such pixel.
    pub fn get_pixel(&self, x: u32, y: u32) -> (res: Option<u8>)
        ensures
            res == (if self@.contains(x as int, y as int) {
                Some(self@.at(x as int, y as int))
            } else {
                None
            }),
    {
        let (width, height) = mask_dimensions(self);
        if x < width && y < height {
            Some(mask_get(self, x, y))
        } else {
            None
        }
    }

    /// Sets the value at `(x, y)` to `value` and says whether the image has
    /// such a pixel; if it has not, the image stays as it is.
    pub fn put_pixel(&mut self, x: u32, y: u32, value: u8) -> (done: bool)
        ensures
            done == old(self)@.contains(x as int, y as int),
            final(self)@.width == old(self)@.width,
            final(self)@.height == old(self)@.height,
            done ==> final(self)@.pixels == old(self)@.pixels.insert((x as int, y as int), value),
            !done ==> final(self)@.pixels == old(self)@.pixels,
    {
        let (width, height) = mask_dimensions(self);
        if x < width && y < height {
            mask_put(self, x, y, value);
            true
        } else {
            false
        }
    }
}

} // verus!
