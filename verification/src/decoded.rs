use vstd::prelude::*;

verus! {

/// `image::DynamicImage`, a decoded image of any of the layouts the `image`
/// crate knows; carried unopened.
#[verifier::external_type_specification]
#[verifier::external_body]
pub struct ExDynamicImage(image::DynamicImage);

/// The width of a decoded image, in pixels.
pub uninterp spec fn decoded_width(img: image::DynamicImage) -> u32;

/// The height of a decoded image, in pixels.
pub uninterp spec fn decoded_height(img: image::DynamicImage) -> u32;

/// The number of channels in each pixel of a decoded image.
pub uninterp spec fn decoded_channels(img: image::DynamicImage) -> u8;

/// The samples of a decoded image as bytes, row by row; a sample wider than
/// a byte stands in the byte order of the machine.
pub uninterp spec fn decoded_bytes(img: image::DynamicImage) -> Seq<u8>;

/// `DynamicImage::width`: the width of the image in pixels.
#[verifier::external_body]
pub(crate) fn width_of(img: &image::DynamicImage) -> (w: u32)
    ensures
        w == decoded_width(*img),
{
    img.width()
}

/// `DynamicImage::height`: the height of the image in pixels.
#[verifier::external_body]
pub(crate) fn height_of(img: &image::DynamicImage) -> (h: u32)
    ensures
        h == decoded_height(*img),
{
    img.height()
}

/// `DynamicImage::color`, and `ColorType::channel_count` of what it
/// returns: how many channels the image's layout gives each pixel.
#[verifier::external_body]
pub(crate) fn channels_of(img: &image::DynamicImage) -> (c: u8)
    ensures
        c == decoded_channels(*img),
{
    img.color().channel_count()
}

/// `DynamicImage::into_bytes`: the image's samples as a byte vector. How
/// many bytes a sample takes is not said here; a caller learns it from the
/// vector's length.
#[verifier::external_body]
pub(crate) fn into_bytes(img: image::DynamicImage) -> (bytes: Vec<u8>)
    ensures
        bytes@ == decoded_bytes(img),
{
    img.into_bytes()
}

} // verus!
