use image_pipeline::parse_chain;
use image_pipeline::usage_lines;
use image_pipeline::FilterOp;
use image_pipeline::PipelineError;

fn toks(words: &[&str]) -> Vec<String> {
    words.iter().map(|w| w.to_string()).collect()
}

#[test]
fn empty_chain_parses_to_no_ops() {
    assert_eq!(parse_chain(&toks(&[])), Ok(vec![]));
}

#[test]
fn single_invert() {
    assert_eq!(parse_chain(&toks(&["invert"])), Ok(vec![FilterOp::Invert]));
}

#[test]
fn single_grayscale() {
    assert_eq!(parse_chain(&toks(&["grayscale"])), Ok(vec![FilterOp::Grayscale]));
}

#[test]
fn chain_keeps_token_order() {
    let r = parse_chain(&toks(&[
        "blur", "2.5", "invert", "rotate", "180", "brighten", "10", "crop", "1", "2", "3", "4",
    ]));
    assert_eq!(
        r,
        Ok(vec![
            FilterOp::Blur("2.5".to_string()),
            FilterOp::Invert,
            FilterOp::Rotate180,
            FilterOp::Brighten(10),
            FilterOp::Crop(1, 2, 3, 4),
        ])
    );
}

#[test]
fn unknown_filter_is_reported() {
    assert_eq!(
        parse_chain(&toks(&["foo"])),
        Err(PipelineError::UnknownFilter { name: "foo".to_string() })
    );
}

#[test]
fn unknown_filter_aborts_before_later_errors() {
    assert_eq!(
        parse_chain(&toks(&["foo", "blur", "abc"])),
        Err(PipelineError::UnknownFilter { name: "foo".to_string() })
    );
}

#[test]
fn blur_missing_amount() {
    assert_eq!(
        parse_chain(&toks(&["blur"])),
        Err(PipelineError::MissingArguments {
            filter: "blur".to_string(),
            required: 1,
            available: 0,
        })
    );
}

#[test]
fn blur_unparseable_amount() {
    assert_eq!(
        parse_chain(&toks(&["blur", "abc"])),
        Err(PipelineError::InvalidArgument {
            filter: "blur".to_string(),
            token: "abc".to_string(),
        })
    );
}

#[test]
fn blur_accepts_real_number_forms() {
    for good in [
        "2.5", ".5", "5.", "0", "1e3", "1E-3", "+.5e+2", "-3.25", "inf", "Infinity", "NaN",
        "+nan", "-inf", "1.e3", ".5e-1", "INF", "nAn", "0000000000000000001", "340282350000000000000000000000000000000",
    ] {
        assert_eq!(
            parse_chain(&toks(&["blur", good])),
            Ok(vec![FilterOp::Blur(good.to_string())]),
            "expected {good:?} to be accepted"
        );
        // The accepted forms are exactly what the standard library parses.
        assert!(good.parse::<f32>().is_ok());
    }
}

#[test]
fn blur_rejects_malformed_tokens() {
    for bad in [
        "abc", "", ".", "1e", "e5", "--5", "1.2.3", "1e2.5", "+", "in", "infinit", "5 ", " 5",
        "1_000", "0x1", "e", "+-3", "3e+", ".e3", "infinityy", "nan5",
    ] {
        assert_eq!(
            parse_chain(&toks(&["blur", bad])),
            Err(PipelineError::InvalidArgument {
                filter: "blur".to_string(),
                token: bad.to_string(),
            }),
            "expected {bad:?} to be rejected"
        );
        assert!(bad.parse::<f32>().is_err());
    }
}

#[test]
fn brighten_parses_signed_amounts() {
    assert_eq!(parse_chain(&toks(&["brighten", "-10"])), Ok(vec![FilterOp::Brighten(-10)]));
    assert_eq!(parse_chain(&toks(&["brighten", "+10"])), Ok(vec![FilterOp::Brighten(10)]));
    assert_eq!(
        parse_chain(&toks(&["brighten", "2147483647"])),
        Ok(vec![FilterOp::Brighten(2147483647)])
    );
    assert_eq!(
        parse_chain(&toks(&["brighten", "-2147483648"])),
        Ok(vec![FilterOp::Brighten(-2147483648)])
    );
}

#[test]
fn brighten_rejects_out_of_range_amounts() {
    for bad in ["2147483648", "-2147483649", "1.5", "", "-", "ten"] {
        assert_eq!(
            parse_chain(&toks(&["brighten", bad])),
            Err(PipelineError::InvalidArgument {
                filter: "brighten".to_string(),
                token: bad.to_string(),
            }),
            "expected {bad:?} to be rejected"
        );
        assert!(bad.parse::<i32>().is_err());
    }
}

#[test]
fn brighten_accepts_leading_zeros() {
    assert_eq!(parse_chain(&toks(&["brighten", "007"])), Ok(vec![FilterOp::Brighten(7)]));
    assert_eq!("007".parse::<i32>(), Ok(7));
}

#[test]
fn brighten_missing_amount() {
    assert_eq!(
        parse_chain(&toks(&["brighten"])),
        Err(PipelineError::MissingArguments {
            filter: "brighten".to_string(),
            required: 1,
            available: 0,
        })
    );
}

#[test]
fn crop_parses_four_coordinates() {
    assert_eq!(
        parse_chain(&toks(&["crop", "10", "10", "50", "50"])),
        Ok(vec![FilterOp::Crop(10, 10, 50, 50)])
    );
    assert_eq!(
        parse_chain(&toks(&["crop", "+0", "0", "4294967295", "1"])),
        Ok(vec![FilterOp::Crop(0, 0, 4294967295, 1)])
    );
}

#[test]
fn crop_missing_arguments() {
    assert_eq!(
        parse_chain(&toks(&["crop", "1", "2", "3"])),
        Err(PipelineError::MissingArguments {
            filter: "crop".to_string(),
            required: 4,
            available: 3,
        })
    );
}

#[test]
fn crop_reports_first_bad_coordinate() {
    assert_eq!(
        parse_chain(&toks(&["crop", "1", "-2", "x", "4"])),
        Err(PipelineError::InvalidArgument {
            filter: "crop".to_string(),
            token: "-2".to_string(),
        })
    );
    assert!("-2".parse::<u32>().is_err());
}

#[test]
fn crop_rejects_overflowing_coordinate() {
    assert_eq!(
        parse_chain(&toks(&["crop", "0", "0", "4294967296", "1"])),
        Err(PipelineError::InvalidArgument {
            filter: "crop".to_string(),
            token: "4294967296".to_string(),
        })
    );
    assert!("4294967296".parse::<u32>().is_err());
}

#[test]
fn rotate_accepts_the_three_turns() {
    assert_eq!(parse_chain(&toks(&["rotate", "90"])), Ok(vec![FilterOp::Rotate90]));
    assert_eq!(parse_chain(&toks(&["rotate", "180"])), Ok(vec![FilterOp::Rotate180]));
    assert_eq!(parse_chain(&toks(&["rotate", "270"])), Ok(vec![FilterOp::Rotate270]));
}

#[test]
fn rotate_rejects_other_amounts() {
    assert_eq!(
        parse_chain(&toks(&["rotate", "45"])),
        Err(PipelineError::InvalidRotation { value: 45 })
    );
    assert_eq!(
        parse_chain(&toks(&["rotate", "0"])),
        Err(PipelineError::InvalidRotation { value: 0 })
    );
    assert_eq!(
        parse_chain(&toks(&["rotate", "360"])),
        Err(PipelineError::InvalidRotation { value: 360 })
    );
}

#[test]
fn rotate_unparseable_amount() {
    assert_eq!(
        parse_chain(&toks(&["rotate", "ninety"])),
        Err(PipelineError::InvalidArgument {
            filter: "rotate".to_string(),
            token: "ninety".to_string(),
        })
    );
}

#[test]
fn rotate_missing_amount() {
    assert_eq!(
        parse_chain(&toks(&["rotate"])),
        Err(PipelineError::MissingArguments {
            filter: "rotate".to_string(),
            required: 1,
            available: 0,
        })
    );
}

#[test]
fn first_error_wins_mid_chain() {
    assert_eq!(
        parse_chain(&toks(&["invert", "rotate", "45", "invert"])),
        Err(PipelineError::InvalidRotation { value: 45 })
    );
}

#[test]
fn filter_names_are_case_sensitive() {
    assert_eq!(
        parse_chain(&toks(&["Invert"])),
        Err(PipelineError::UnknownFilter { name: "Invert".to_string() })
    );
}

#[test]
fn usage_enumerates_all_filters() {
    let lines = usage_lines();
    assert_eq!(lines.len(), 11);
    assert_eq!(lines[0], "USAGE (when in doubt, use a .png extension on your filenames)");
    assert_eq!(lines[2], "INFILE OUTFILE <CHAIN OF FILTERS>");
    assert_eq!(lines[4], "Available filters:");
    assert_eq!(lines[5], "    blur BLUR_AMOUNT");
    assert_eq!(lines[6], "    brighten BRIGHTEN_AMOUNT");
    assert_eq!(lines[7], "    crop X Y WIDTH HEIGHT");
    assert_eq!(lines[8], "    rotate DEGREES{90, 180, 270}");
    assert_eq!(lines[9], "    invert");
    assert_eq!(lines[10], "    grayscale");
}
