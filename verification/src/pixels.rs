use crate::color::Rgb8;
use vstd::prelude::*;

verus! {

/// An RGB image buffer of the `image` crate, 8 bits per channel, over a
/// `Vec<u8>`. The buffer type's bound is a trait of that crate, so the buffer
/// is held here unopened and spoken of through `buffer_width`,
/// `buffer_height` and `buffer_pixels`.
#[verifier::external_body]
pub struct RgbBuffer {
    buffer: image::ImageBuffer<image::Rgb<u8>, Vec<u8>>,
}

/// The width an image buffer was made with.
pub uninterp spec fn buffer_width(buf: RgbBuffer) -> u32;

/// The height an image buffer was made with.
pub uninterp spec fn buffer_height(buf: RgbBuffer) -> u32;

/// The pixels of an image buffer in row-major order, top row first: pixel
/// `(x, y)` is entry `y * width + x`.
pub uninterp spec fn buffer_pixels(buf: RgbBuffer) -> Seq<Rgb8>;

/// What an image buffer is: its sides and its pixels, row by row.
pub struct BufferModel {
    pub width: int,
    pub height: int,
    pub pixels: Seq<Rgb8>,
}

impl BufferModel {
    /// Where pixel `(x, y)` stands among the pixels.
    pub open spec fn index(self, x: int, y: int) -> int {
        y * self.width + x
    }

    /// The pixels as the bytes an encoder takes: red, green and blue of each
    /// pixel in turn.
    pub open spec fn holds_bytes(self, bytes: Seq<u8>) -> bool {
        &&& bytes.len() == 3 * self.pixels.len()
        &&& forall|k: int|
            0 <= k < self.pixels.len() ==> #[trigger] self.pixels[k] == (Rgb8 {
                r: bytes[3 * k],
                g: bytes[3 * k + 1],
                b: bytes[3 * k + 2],
            })
    }
}

impl View for RgbBuffer {
    type V = BufferModel;

    open spec fn view(&self) -> BufferModel {
        BufferModel {
            width: buffer_width(*self) as int,
            height: buffer_height(*self) as int,
            pixels: buffer_pixels(*self),
        }
    }
}

/// Black, the colour of a pixel not yet written.
pub open spec fn black() -> Rgb8 {
    Rgb8 { r: 0, g: 0, b: 0 }
}

/// `ImageBuffer::new`: a buffer of the given sides whose samples are all
/// zero. It panics when the samples outgrow a vector, which `requires`
/// leaves out.
#[verifier::external_body]
fn new_buffer(width: u32, height: u32) -> (buf: RgbBuffer)
    requires
        3 * width * height <= isize::MAX,
    ensures
        buffer_width(buf) == width,
        buffer_height(buf) == height,
        buffer_pixels(buf) == Seq::new((width * height) as nat, |k: int| black()),
{
    RgbBuffer { buffer: image::ImageBuffer::new(width, height) }
}

/// `ImageBuffer::width`: the width the buffer was made with. A buffer holds
/// one pixel for each column of each row.
#[verifier::external_body]
fn width_of(buf: &RgbBuffer) -> (w: u32)
    ensures
        w == buffer_width(*buf),
        buffer_pixels(*buf).len() == w * buffer_height(*buf),
{
    buf.buffer.width()
}

/// `ImageBuffer::height`: the height the buffer was made with.
#[verifier::external_body]
fn height_of(buf: &RgbBuffer) -> (h: u32)
    ensures
        h == buffer_height(*buf),
{
    buf.buffer.height()
}

/// `ImageBuffer::put_pixel`: replaces the pixel at `(x, y)` and nothing
/// else. It panics outside the buffer, which `requires` leaves out.
#[verifier::external_body]
pub(crate) fn put_pixel(buf: &mut RgbBuffer, x: u32, y: u32, color: Rgb8)
    requires
        x < buffer_width(*old(buf)),
        y < buffer_height(*old(buf)),
    ensures
        buffer_width(*final(buf)) == buffer_width(*old(buf)),
        buffer_height(*final(buf)) == buffer_height(*old(buf)),
        buffer_pixels(*final(buf)) == buffer_pixels(*old(buf)).update(
            y * buffer_width(*old(buf)) + x,
            color,
        ),
{
    buf.buffer.put_pixel(x, y, image::Rgb([color.r, color.g, color.b]));
}

/// `ImageBuffer::as_raw`: the samples of the buffer, three for each pixel
/// in row-major order; copied out.
#[verifier::external_body]
fn raw_bytes(buf: &RgbBuffer) -> (bytes: Vec<u8>)
    ensures
        bytes@.len() == 3 * buffer_pixels(*buf).len(),
        forall|k: int|
            0 <= k < buffer_pixels(*buf).len() ==> #[trigger] buffer_pixels(*buf)[k] == (Rgb8 {
                r: bytes@[3 * k],
                g: bytes@[3 * k + 1],
                b: bytes@[3 * k + 2],
            }),
{
    buf.buffer.as_raw().clone()
}

impl RgbBuffer {
    /// A black buffer of the given sides, or `None` where its samples would
    /// outgrow a vector.
    pub fn new(width: u32, height: u32) -> (r: Option<RgbBuffer>)
        ensures
            r is Some <==> 3 * width * height <= isize::MAX,
            r matches Some(buf) ==> buf@ == (BufferModel {
                width: width as int,
                height: height as int,
                pixels: Seq::new((width * height) as nat, |k: int| black()),
            }),
    {
        assert(width * height <= 0xffff_ffff * 0xffff_ffff) by (nonlinear_arith)
            requires
                0 <= width <= 0xffff_ffff,
                0 <= height <= 0xffff_ffff,
        ;
        let samples: u128 = 3 * ((width as u128) * (height as u128));
        if samples <= isize::MAX as u128 {
            assert(3 * width * height == 3 * (width * height)) by (nonlinear_arith);
            Some(new_buffer(width, height))
        } else {
            assert(3 * width * height == 3 * (width * height)) by (nonlinear_arith);
            None
        }
    }

    /// The number of columns.
    pub fn width(&self) -> (w: u32)
        ensures
            w == self@.width,
            self@.pixels.len() == self@.width * self@.height,
    {
        width_of(self)
    }

    /// The number of rows.
    pub fn height(&self) -> (h: u32)
        ensures
            h == self@.height,
    {
        height_of(self)
    }

    /// The buffer as the bytes an encoder takes.
    pub fn to_bytes(&self) -> (bytes: Vec<u8>)
        ensures
            self@.holds_bytes(bytes@),
    {
        raw_bytes(self)
    }
}

} // verus!
