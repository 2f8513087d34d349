//! Trusted boundary to the `image` crate's pixel operations.
//!
//! The image value is opaque here: what an operation does to the pixels is
//! carried by uninterpreted names (`inverted`, `rotated90`, ...), one per
//! operation, together with the few exact facts the crate's source shows:
//! the dimensions a crop yields, and which operations undo one another.

use vstd::prelude::*;

verus! {

/// Declares `image::DynamicImage` so that signatures and contracts can carry
/// an image value through; nothing of its inside is visible here.
#[verifier::external_type_specification]
#[verifier::external_body]
pub struct ExDynamicImage(image::DynamicImage);

/// The width, in pixels, that `image::DynamicImage::width` reports.
pub uninterp spec fn width_of(img: image::DynamicImage) -> u32;

/// The height, in pixels, that `image::DynamicImage::height` reports.
pub uninterp spec fn height_of(img: image::DynamicImage) -> u32;

/// Whether every sample of the image is an integer: what
/// `image::DynamicImage::color` reports, narrowed to the one distinction the
/// contracts need. The two 32-bit real-valued sample formats make rounding
/// possible in per-channel arithmetic; all other formats are exact.
pub uninterp spec fn integer_samples(img: image::DynamicImage) -> bool;

/// The image with every color channel complemented, as `invert` leaves it.
pub uninterp spec fn inverted(img: image::DynamicImage) -> image::DynamicImage;

/// The grayscale rendering of the image, as `grayscale` returns it.
pub uninterp spec fn grayscaled(img: image::DynamicImage) -> image::DynamicImage;

/// The image turned a quarter turn clockwise, as `rotate90` returns it.
pub uninterp spec fn rotated90(img: image::DynamicImage) -> image::DynamicImage;

/// The image turned a half turn, as `rotate180` returns it.
pub uninterp spec fn rotated180(img: image::DynamicImage) -> image::DynamicImage;

/// The image turned a quarter turn counterclockwise, as `rotate270` returns it.
pub uninterp spec fn rotated270(img: image::DynamicImage) -> image::DynamicImage;

/// The image with `amount` added to every color channel, saturating, as
/// `brighten` returns it.
pub uninterp spec fn brightened(img: image::DynamicImage, amount: i32) -> image::DynamicImage;

/// The cut-out that `crop_imm` returns for the given rectangle.
pub uninterp spec fn cropped(
    img: image::DynamicImage,
    x: u32,
    y: u32,
    w: u32,
    h: u32,
) -> image::DynamicImage;

/// The extent a crop yields along one axis: the requested extent, clamped to
/// what remains of the image past the (likewise clamped) offset.
pub open spec fn clamped_extent(total: int, offset: int, want: int) -> int {
    let off = if offset <= total {
        offset
    } else {
        total
    };
    let avail = total - off;
    if want <= avail {
        want
    } else {
        avail
    }
}

/// Relies on `image::DynamicImage::width`.
#[verifier::external_body]
pub(crate) fn image_width(img: &image::DynamicImage) -> (r: u32)
    ensures
        r == width_of(*img),
{
    img.width()
}

/// Relies on `image::DynamicImage::height`.
#[verifier::external_body]
pub(crate) fn image_height(img: &image::DynamicImage) -> (r: u32)
    ensures
        r == height_of(*img),
{
    img.height()
}

/// Relies on `image::DynamicImage::color`: reports whether the image's sample
/// format is one of the integer ones (everything but the two 32-bit
/// real-valued formats).
#[verifier::external_body]
pub(crate) fn has_integer_samples(img: &image::DynamicImage) -> (r: bool)
    ensures
        r == integer_samples(*img),
{
    match img.color() {
        image::ColorType::Rgb32F => false,
        image::ColorType::Rgba32F => false,
        _ => true,
    }
}

/// Relies on `image::DynamicImage::invert`: each color channel becomes its
/// distance from the channel maximum, alpha and shape are kept, and the
/// sample format is unchanged. On integer samples the subtraction is exact,
/// so a second inversion restores the original image.
#[verifier::external_body]
pub(crate) fn invert_image(img: &mut image::DynamicImage)
    ensures
        *final(img) == inverted(*old(img)),
        integer_samples(*old(img)) ==> inverted(*final(img)) == *old(img),
{
    img.invert();
}

/// Relies on `image::DynamicImage::grayscale`: the result of an image with
/// integer samples is a luma image, and taking the grayscale of such a luma
/// image copies it unchanged, so on integer samples the operation is
/// idempotent.
#[verifier::external_body]
pub(crate) fn grayscale_image(img: &image::DynamicImage) -> (r: image::DynamicImage)
    ensures
        r == grayscaled(*img),
        integer_samples(*img) ==> grayscaled(r) == r,
{
    img.grayscale()
}

/// Relies on `image::DynamicImage::rotate90`: a pure rearrangement of the
/// pixels, so a counterclockwise quarter turn undoes it, and three further
/// clockwise quarter turns restore the original image exactly.
#[verifier::external_body]
pub(crate) fn rotate90_image(img: &image::DynamicImage) -> (r: image::DynamicImage)
    ensures
        r == rotated90(*img),
        rotated270(r) == *img,
        rotated90(rotated90(rotated90(r))) == *img,
{
    img.rotate90()
}

/// Relies on `image::DynamicImage::rotate180`: a pure rearrangement of the
/// pixels that is its own inverse.
#[verifier::external_body]
pub(crate) fn rotate180_image(img: &image::DynamicImage) -> (r: image::DynamicImage)
    ensures
        r == rotated180(*img),
        rotated180(r) == *img,
{
    img.rotate180()
}

/// Relies on `image::DynamicImage::rotate270`: a pure rearrangement of the
/// pixels that a clockwise quarter turn undoes.
#[verifier::external_body]
pub(crate) fn rotate270_image(img: &image::DynamicImage) -> (r: image::DynamicImage)
    ensures
        r == rotated270(*img),
        rotated90(r) == *img,
{
    img.rotate270()
}

/// Relies on `image::DynamicImage::brighten`: adds `amount` to every color
/// channel, clamping to the channel's range and keeping alpha. The crate
/// casts each sample to a 32-bit signed integer with an unwrap — on the
/// real-valued sample formats a sample can be out of that range and the
/// unwrap aborts — and then adds `amount` to the sample in that integer
/// type, so the amount must leave room above the largest integer sample
/// value (65535); both panics are left out by the `requires`.
#[verifier::external_body]
pub(crate) fn brighten_image(img: &image::DynamicImage, amount: i32) -> (r: image::DynamicImage)
    requires
        integer_samples(*img),
        amount <= i32::MAX - 65535,
    ensures
        r == brightened(*img, amount),
{
    img.brighten(amount)
}

/// Relies on `image::DynamicImage::crop_imm`: returns the cut-out delimited
/// by the rectangle, whose extent along each axis the crate clamps to the
/// image's bounds exactly as [`clamped_extent`] states.
#[verifier::external_body]
pub(crate) fn crop_image(img: &image::DynamicImage, x: u32, y: u32, w: u32, h: u32) -> (r:
    image::DynamicImage)
    ensures
        r == cropped(*img, x, y, w, h),
        width_of(r) as int == clamped_extent(width_of(*img) as int, x as int, w as int),
        height_of(r) as int == clamped_extent(height_of(*img) as int, y as int, h as int),
{
    img.crop_imm(x, y, w, h)
}

} // verus!
