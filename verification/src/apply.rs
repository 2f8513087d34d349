//! Applying validated operations to an image, in token order.
//!
//! Every operation but blur is performed here, behind exact contracts; the
//! blur amount is a real-number token whose numeric value the verified code
//! does not hold, so a caller performs blur itself and threads the result
//! back through the chain. Brighten is the one operation the imaging crate
//! cannot perform on every input: on the real-valued sample formats, or with
//! an amount beyond the sample arithmetic, it is refused here as an
//! operation failure instead of being attempted.

use vstd::prelude::*;
use vstd::pervasive::unreached;
use vstd::string::StringExecFns;
use crate::chain::FilterOp;
use crate::chain::FilterOpView;
use crate::chain::PipelineError;
use crate::chain::PipelineErrorView;
use crate::image_ops::width_of;
use crate::image_ops::height_of;
use crate::image_ops::integer_samples;
use crate::image_ops::inverted;
use crate::image_ops::grayscaled;
use crate::image_ops::rotated90;
use crate::image_ops::rotated180;
use crate::image_ops::rotated270;
use crate::image_ops::brightened;
use crate::image_ops::cropped;
use crate::image_ops::clamped_extent;
use crate::image_ops::image_width;
use crate::image_ops::image_height;
use crate::image_ops::has_integer_samples;
use crate::image_ops::invert_image;
use crate::image_ops::grayscale_image;
use crate::image_ops::rotate90_image;
use crate::image_ops::rotate180_image;
use crate::image_ops::rotate270_image;
use crate::image_ops::brighten_image;
use crate::image_ops::crop_image;

verus! {

/// The image one operation yields. `None` for blur, whose numeric amount the
/// library does not interpret, and for a brighten the imaging crate cannot
/// perform: one on real-valued samples, or one whose amount leaves no room
/// above the largest integer sample value in the crate's per-channel
/// arithmetic.
pub open spec fn spec_apply_op(img: image::DynamicImage, op: FilterOpView) -> Option<
    image::DynamicImage,
> {
    match op {
        FilterOpView::Blur(_) => None,
        FilterOpView::Brighten(v) => if integer_samples(img) && v <= i32::MAX - 65535 {
            Some(brightened(img, v))
        } else {
            None
        },
        FilterOpView::Crop(x, y, w, h) => Some(cropped(img, x, y, w, h)),
        FilterOpView::Rotate90 => Some(rotated90(img)),
        FilterOpView::Rotate180 => Some(rotated180(img)),
        FilterOpView::Rotate270 => Some(rotated270(img)),
        FilterOpView::Invert => Some(inverted(img)),
        FilterOpView::Grayscale => Some(grayscaled(img)),
    }
}

/// The error reported when a brighten is refused: which of its two grounds
/// holds is read off the image.
pub open spec fn brighten_refused(img: image::DynamicImage) -> PipelineErrorView {
    PipelineErrorView::OperationFailed {
        filter: "brighten"@,
        cause: if !integer_samples(img) {
            "the image's samples are not integers"@
        } else {
            "the amount exceeds the sample arithmetic"@
        },
    }
}

/// The image the operations from position `i` on yield, each applied to the
/// outcome of the previous one, strictly left to right; `None` as soon as
/// one of them cannot be applied.
pub open spec fn spec_apply_from(
    img: image::DynamicImage,
    ops: Seq<FilterOpView>,
    i: int,
) -> Option<image::DynamicImage>
    decreases ops.len() - i,
{
    if i < 0 || i >= ops.len() {
        Some(img)
    } else {
        match spec_apply_op(img, ops[i]) {
            None => None,
            Some(next) => spec_apply_from(next, ops, i + 1),
        }
    }
}

/// The image a whole chain of operations yields.
pub open spec fn spec_apply_chain(img: image::DynamicImage, ops: Seq<FilterOpView>) -> Option<
    image::DynamicImage,
> {
    spec_apply_from(img, ops, 0)
}

/// Whether a chain holds no blur, so the library can apply all of it.
pub open spec fn chain_appliable(ops: Seq<FilterOpView>) -> bool {
    forall|i: int| 0 <= i < ops.len() ==> !(ops[i] is Blur)
}

/// Whether `e` reports the failure of the chain's operation at position `k`,
/// for an application that started at position `i`: the operations from `i`
/// up to `k` all applied, the one at `k` did not, and `e` is its refusal,
/// read off the image those earlier operations produced.
pub open spec fn reports_first_failure(
    img: image::DynamicImage,
    ops: Seq<FilterOpView>,
    e: PipelineErrorView,
    i: int,
    k: int,
) -> bool {
    &&& i <= k < ops.len()
    &&& spec_apply_from(img, ops.take(k), i) is Some
    &&& spec_apply_op(spec_apply_from(img, ops.take(k), i)->Some_0, ops[k]) is None
    &&& e == brighten_refused(spec_apply_from(img, ops.take(k), i)->Some_0)
}

/// Applies one operation (any but blur) to the image, or reports the
/// operation failure when the imaging crate cannot perform it.
pub fn apply_op(img: image::DynamicImage, op: &FilterOp) -> (r: Result<
    image::DynamicImage,
    PipelineError,
>)
    requires
        !(op@ is Blur),
    ensures
        match r {
            Ok(out) => spec_apply_op(img, op@) == Some(out),
            Err(e) => spec_apply_op(img, op@) is None && e@ == brighten_refused(img),
        },
{
    match op {
        FilterOp::Blur(_) => unreached(),
        FilterOp::Brighten(v) => {
            if !has_integer_samples(&img) {
                Err(
                    PipelineError::OperationFailed {
                        filter: String::from_str("brighten"),
                        cause: String::from_str("the image's samples are not integers"),
                    },
                )
            } else if *v > i32::MAX - 65535 {
                Err(
                    PipelineError::OperationFailed {
                        filter: String::from_str("brighten"),
                        cause: String::from_str("the amount exceeds the sample arithmetic"),
                    },
                )
            } else {
                Ok(brighten_image(&img, *v))
            }
        },
        FilterOp::Crop(x, y, w, h) => Ok(crop_image(&img, *x, *y, *w, *h)),
        FilterOp::Rotate90 => Ok(rotate90_image(&img)),
        FilterOp::Rotate180 => Ok(rotate180_image(&img)),
        FilterOp::Rotate270 => Ok(rotate270_image(&img)),
        FilterOp::Invert => {
            let mut m = img;
            invert_image(&mut m);
            Ok(m)
        },
        FilterOp::Grayscale => Ok(grayscale_image(&img)),
    }
}

/// Applies a blur-free chain of operations to the image, in order: each
/// operation sees the outcome of all the operations before it. If some
/// operation cannot be applied, the first such one's failure is reported,
/// and it is a refused brighten on the image the operations before it
/// produced.
pub fn apply_chain(img: image::DynamicImage, ops: &Vec<FilterOp>) -> (r: Result<
    image::DynamicImage,
    PipelineError,
>)
    requires
        chain_appliable(ops.deep_view()),
    ensures
        match r {
            Ok(out) => spec_apply_chain(img, ops.deep_view()) == Some(out),
            Err(e) => spec_apply_chain(img, ops.deep_view()) is None && (exists|k: int|
                reports_first_failure(img, ops.deep_view(), e@, 0, k)),
        },
{
    apply_chain_from(img, ops, 0)
}

/// Applies the operations from position `i` on, threading the image through.
fn apply_chain_from(img: image::DynamicImage, ops: &Vec<FilterOp>, i: usize) -> (r: Result<
    image::DynamicImage,
    PipelineError,
>)
    requires
        chain_appliable(ops.deep_view()),
        i <= ops@.len(),
    ensures
        match r {
            Ok(out) => spec_apply_from(img, ops.deep_view(), i as int) == Some(out),
            Err(e) => spec_apply_from(img, ops.deep_view(), i as int) is None && (exists|k: int|
                reports_first_failure(img, ops.deep_view(), e@, i as int, k)),
        },
    decreases ops@.len() - i,
{
    let ghost opsv = ops.deep_view();
    if i == ops.len() {
        return Ok(img);
    }
    let op = &ops[i];
    assert(opsv[i as int] == op@);
    match apply_op(img, op) {
        Ok(next) => {
            match apply_chain_from(next, ops, i + 1) {
                Ok(out) => Ok(out),
                Err(e) => {
                    proof {
                        let k = choose|k: int|
                            #[trigger] reports_first_failure(next, opsv, e@, i + 1, k);
                        assert(opsv.take(k)[i as int] == opsv[i as int]);
                        assert(spec_apply_from(img, opsv.take(k), i as int)
                            == spec_apply_from(next, opsv.take(k), i + 1));
                        assert(reports_first_failure(img, opsv, e@, i as int, k));
                    }
                    Err(e)
                },
            }
        },
        Err(e) => {
            proof {
                assert(spec_apply_from(img, opsv.take(i as int), i as int) == Some(img));
                assert(reports_first_failure(img, opsv, e@, i as int, i as int));
            }
            Err(e)
        },
    }
}

/// Applying `a + b` from position `a.len() + j` is applying `b` from `j`.
proof fn lemma_apply_from_shift(
    img: image::DynamicImage,
    a: Seq<FilterOpView>,
    b: Seq<FilterOpView>,
    j: int,
)
    requires
        0 <= j <= b.len(),
    ensures
        spec_apply_from(img, a + b, a.len() + j) == spec_apply_from(img, b, j),
    decreases b.len() - j,
{
    if j < b.len() {
        assert((a + b)[a.len() + j] == b[j]);
        match spec_apply_op(img, b[j]) {
            None => {},
            Some(next) => lemma_apply_from_shift(next, a, b, j + 1),
        }
    }
}

proof fn lemma_chain_append_from(
    img: image::DynamicImage,
    a: Seq<FilterOpView>,
    b: Seq<FilterOpView>,
    i: int,
)
    requires
        0 <= i <= a.len(),
    ensures
        spec_apply_from(img, a + b, i) == (match spec_apply_from(img, a, i) {
            Some(m) => spec_apply_chain(m, b),
            None => None,
        }),
    decreases a.len() - i,
{
    if i == a.len() {
        lemma_apply_from_shift(img, a, b, 0);
    } else {
        assert((a + b)[i] == a[i]);
        match spec_apply_op(img, a[i]) {
            None => {},
            Some(next) => lemma_chain_append_from(next, a, b, i + 1),
        }
    }
}

/// Filters apply strictly left to right: a chain splits anywhere into a
/// front part and a back part, and the back part starts from exactly the
/// image the front part produced.
pub proof fn lemma_chain_append(
    img: image::DynamicImage,
    a: Seq<FilterOpView>,
    b: Seq<FilterOpView>,
)
    ensures
        spec_apply_chain(img, a + b) == (match spec_apply_chain(img, a) {
            Some(m) => spec_apply_chain(m, b),
            None => None,
        }),
{
    lemma_chain_append_from(img, a, b, 0);
}

/// An empty chain leaves the image untouched.
pub proof fn lemma_empty_chain(img: image::DynamicImage)
    ensures
        spec_apply_chain(img, Seq::empty()) == Some(img),
{
}

/// Inverting an image twice restores it exactly, for images whose samples
/// are integers.
pub fn invert_twice(img: &mut image::DynamicImage)
    requires
        integer_samples(*old(img)),
    ensures
        *final(img) == *old(img),
{
    invert_image(img);
    invert_image(img);
}

/// Four clockwise quarter turns restore the image exactly.
pub fn rotate90_four_times(img: &image::DynamicImage) -> (r: image::DynamicImage)
    ensures
        r == *img,
{
    let r1 = rotate90_image(img);
    let r2 = rotate90_image(&r1);
    let r3 = rotate90_image(&r2);
    rotate90_image(&r3)
}

/// A clockwise quarter turn followed by a counterclockwise one restores the
/// image exactly.
pub fn rotate90_then_270(img: &image::DynamicImage) -> (r: image::DynamicImage)
    ensures
        r == *img,
{
    let r1 = rotate90_image(img);
    rotate270_image(&r1)
}

/// Two half turns restore the image exactly.
pub fn rotate180_twice(img: &image::DynamicImage) -> (r: image::DynamicImage)
    ensures
        r == *img,
{
    let r1 = rotate180_image(img);
    rotate180_image(&r1)
}

/// Grayscale applied twice gives the same image as grayscale applied once,
/// for images whose samples are integers.
pub fn grayscale_twice(img: &image::DynamicImage) -> (r: image::DynamicImage)
    requires
        integer_samples(*img),
    ensures
        r == grayscaled(*img),
{
    let once = grayscale_image(img);
    grayscale_image(&once)
}

/// A crop that lies within the image's bounds yields exactly the requested
/// width and height; one that does not is reported rather than performed.
pub fn crop_checked(img: &image::DynamicImage, x: u32, y: u32, w: u32, h: u32) -> (r: Option<
    image::DynamicImage,
>)
    ensures
        match r {
            Some(c) => x + w <= width_of(*img) && y + h <= height_of(*img) && c == cropped(
                *img,
                x,
                y,
                w,
                h,
            ) && width_of(c) == w && height_of(c) == h,
            None => x + w > width_of(*img) || y + h > height_of(*img),
        },
{
    let iw = image_width(img);
    let ih = image_height(img);
    if x <= iw && w <= iw - x && y <= ih && h <= ih - y {
        let c = crop_image(img, x, y, w, h);
        assert(clamped_extent(iw as int, x as int, w as int) == w);
        assert(clamped_extent(ih as int, y as int, h as int) == h);
        Some(c)
    } else {
        None
    }
}

/// Whether the image's samples are integers: the property that decides
/// whether a brighten can be applied, and that the pixel-level round-trip
/// laws condition on.
pub fn integer_sampled(img: &image::DynamicImage) -> (r: bool)
    ensures
        r == integer_samples(*img),
{
    has_integer_samples(img)
}

} // verus!
