use image_pipeline::apply_chain;
use image_pipeline::apply_op;
use image_pipeline::crop_checked;
use image_pipeline::grayscale_twice;
use image_pipeline::integer_sampled;
use image_pipeline::invert_twice;
use image_pipeline::parse_chain;
use image_pipeline::rotate180_twice;
use image_pipeline::rotate90_four_times;
use image_pipeline::rotate90_then_270;
use image_pipeline::FilterOp;
use image_pipeline::PipelineError;

fn sample_image(w: u32, h: u32) -> image::DynamicImage {
    let buf = image::RgbImage::from_fn(w, h, |x, y| {
        image::Rgb([(x * 7 + y * 13) as u8, (x * 3 + 40) as u8, (y * 5 + 9) as u8])
    });
    image::DynamicImage::ImageRgb8(buf)
}

fn words(ws: &[&str]) -> Vec<String> {
    ws.iter().map(|w| w.to_string()).collect()
}

#[test]
fn sample_has_integer_samples() {
    assert!(integer_sampled(&sample_image(4, 3)));
    let f = image::DynamicImage::ImageRgb32F(image::Rgb32FImage::new(2, 2));
    assert!(!integer_sampled(&f));
}

#[test]
fn invert_complements_every_channel() {
    let img = sample_image(4, 3);
    let inverted = apply_op(img.clone(), &FilterOp::Invert).unwrap();
    let expected: Vec<u8> = img.as_bytes().iter().map(|b| 255 - b).collect();
    assert_eq!(inverted.as_bytes(), &expected[..]);
    assert_ne!(inverted.as_bytes(), img.as_bytes());
}

#[test]
fn invert_twice_restores_the_image() {
    let img = sample_image(5, 4);
    let mut twice = img.clone();
    invert_twice(&mut twice);
    assert_eq!(twice, img);
}

#[test]
fn invert_invert_chain_restores_the_image() {
    let img = sample_image(5, 4);
    let ops = parse_chain(&words(&["invert", "invert"])).unwrap();
    assert_eq!(apply_chain(img.clone(), &ops).unwrap(), img);
}

#[test]
fn four_quarter_turns_restore_the_image() {
    let img = sample_image(5, 3);
    assert_eq!(rotate90_four_times(&img), img);
    let ops = parse_chain(&words(&["rotate", "90", "rotate", "90", "rotate", "90", "rotate", "90"]))
        .unwrap();
    assert_eq!(apply_chain(img.clone(), &ops).unwrap(), img);
}

#[test]
fn quarter_turn_and_back_restores_the_image() {
    let img = sample_image(6, 2);
    assert_eq!(rotate90_then_270(&img), img);
    let ops = parse_chain(&words(&["rotate", "90", "rotate", "270"])).unwrap();
    assert_eq!(apply_chain(img.clone(), &ops).unwrap(), img);
}

#[test]
fn two_half_turns_restore_the_image() {
    let img = sample_image(3, 5);
    assert_eq!(rotate180_twice(&img), img);
}

#[test]
fn rotate90_transposes_dimensions() {
    let img = sample_image(6, 2);
    let turned = apply_op(img, &FilterOp::Rotate90).unwrap();
    assert_eq!((turned.width(), turned.height()), (2, 6));
}

#[test]
fn grayscale_is_idempotent() {
    let img = sample_image(4, 4);
    let once = apply_op(img.clone(), &FilterOp::Grayscale).unwrap();
    let twice = grayscale_twice(&img);
    assert_eq!(twice, once);
    assert_eq!(apply_op(once.clone(), &FilterOp::Grayscale).unwrap(), once);
}

#[test]
fn grayscale_output_is_gray_and_keeps_dimensions() {
    let img = sample_image(4, 4);
    let g = apply_op(img, &FilterOp::Grayscale).unwrap();
    assert_eq!((g.width(), g.height()), (4, 4));
    for p in g.to_rgb8().pixels() {
        assert!(p.0[0] == p.0[1] && p.0[1] == p.0[2]);
    }
}

#[test]
fn crop_yields_requested_dimensions() {
    let img = sample_image(10, 10);
    let cropped = apply_op(img, &FilterOp::Crop(10, 10, 50, 50)).unwrap();
    // Out-of-bounds extents are clamped by the imaging library.
    assert_eq!((cropped.width(), cropped.height()), (0, 0));
    let img = sample_image(100, 80);
    let cropped = apply_op(img.clone(), &FilterOp::Crop(10, 10, 50, 50)).unwrap();
    assert_eq!((cropped.width(), cropped.height()), (50, 50));
    // The content is the corresponding sub-region of the original.
    let orig = img.to_rgb8();
    let got = cropped.to_rgb8();
    for y in 0..50 {
        for x in 0..50 {
            assert_eq!(got.get_pixel(x, y), orig.get_pixel(x + 10, y + 10));
        }
    }
}

#[test]
fn crop_checked_accepts_in_bounds_rectangles() {
    let img = sample_image(10, 8);
    let c = crop_checked(&img, 2, 3, 4, 5).unwrap();
    assert_eq!((c.width(), c.height()), (4, 5));
}

#[test]
fn crop_checked_rejects_out_of_bounds_rectangles() {
    let img = sample_image(10, 8);
    assert!(crop_checked(&img, 8, 0, 3, 2).is_none());
    assert!(crop_checked(&img, 0, 7, 2, 2).is_none());
}

#[test]
fn brighten_adds_to_color_channels() {
    let img = sample_image(4, 3);
    let brightened = apply_op(img.clone(), &FilterOp::Brighten(40)).unwrap();
    assert_eq!(brightened, img.brighten(40));
    assert_ne!(brightened, img);
    let darkened = apply_op(img.clone(), &FilterOp::Brighten(-200)).unwrap();
    assert_eq!(darkened, img.brighten(-200));
}

#[test]
fn brighten_refuses_real_valued_samples() {
    let img = image::DynamicImage::ImageRgb32F(image::Rgb32FImage::new(2, 2));
    assert_eq!(
        apply_op(img, &FilterOp::Brighten(10)),
        Err(PipelineError::OperationFailed {
            filter: "brighten".to_string(),
            cause: "the image's samples are not integers".to_string(),
        })
    );
}

#[test]
fn brighten_refuses_oversized_amount() {
    let img = sample_image(4, 3);
    assert_eq!(
        apply_op(img, &FilterOp::Brighten(i32::MAX)),
        Err(PipelineError::OperationFailed {
            filter: "brighten".to_string(),
            cause: "the amount exceeds the sample arithmetic".to_string(),
        })
    );
}

#[test]
fn brighten_accepts_the_largest_safe_amount() {
    let img = sample_image(4, 3);
    let amount = i32::MAX - 65535;
    let brightened = apply_op(img.clone(), &FilterOp::Brighten(amount)).unwrap();
    assert_eq!(brightened, img.brighten(amount));
    // Every color channel saturates at the maximum.
    for p in brightened.to_rgb8().pixels() {
        assert_eq!(p.0, [255, 255, 255]);
    }
}

#[test]
fn chain_reports_first_operation_failure() {
    let img = sample_image(4, 3);
    let ops = vec![FilterOp::Invert, FilterOp::Brighten(i32::MAX), FilterOp::Rotate90];
    assert_eq!(
        apply_chain(img, &ops),
        Err(PipelineError::OperationFailed {
            filter: "brighten".to_string(),
            cause: "the amount exceeds the sample arithmetic".to_string(),
        })
    );
}

#[test]
fn empty_chain_leaves_the_image_untouched() {
    let img = sample_image(7, 7);
    let ops = parse_chain(&words(&[])).unwrap();
    assert!(ops.is_empty());
    assert_eq!(apply_chain(img.clone(), &ops).unwrap(), img);
}

#[test]
fn chain_applies_left_to_right() {
    let img = sample_image(9, 6);
    let ops = parse_chain(&words(&["brighten", "25", "invert", "rotate", "180"])).unwrap();
    let got = apply_chain(img.clone(), &ops).unwrap();
    let mut expected = img.brighten(25);
    expected.invert();
    let expected = expected.rotate180();
    assert_eq!(got, expected);
}
