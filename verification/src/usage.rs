//! The usage message, with its exact text pinned down.

use vstd::prelude::*;
use vstd::string::StringExecFns;

verus! {

/// The usage message, line by line, as the command-line front end prints it
/// when the arguments or the filter chain are unusable.
pub fn usage_lines() -> (r: Vec<String>)
    ensures
        r@.len() == 11,
        r@[0]@ == "USAGE (when in doubt, use a .png extension on your filenames)"@,
        r@[1]@ == ""@,
        r@[2]@ == "INFILE OUTFILE <CHAIN OF FILTERS>"@,
        r@[3]@ == ""@,
        r@[4]@ == "Available filters:"@,
        r@[5]@ == "    blur BLUR_AMOUNT"@,
        r@[6]@ == "    brighten BRIGHTEN_AMOUNT"@,
        r@[7]@ == "    crop X Y WIDTH HEIGHT"@,
        r@[8]@ == "    rotate DEGREES{90, 180, 270}"@,
        r@[9]@ == "    invert"@,
        r@[10]@ == "    grayscale"@,
{
    let mut r: Vec<String> = Vec::new();
    r.push(String::from_str("USAGE (when in doubt, use a .png extension on your filenames)"));
    r.push(String::from_str(""));
    r.push(String::from_str("INFILE OUTFILE <CHAIN OF FILTERS>"));
    r.push(String::from_str(""));
    r.push(String::from_str("Available filters:"));
    r.push(String::from_str("    blur BLUR_AMOUNT"));
    r.push(String::from_str("    brighten BRIGHTEN_AMOUNT"));
    r.push(String::from_str("    crop X Y WIDTH HEIGHT"));
    r.push(String::from_str("    rotate DEGREES{90, 180, 270}"));
    r.push(String::from_str("    invert"));
    r.push(String::from_str("    grayscale"));
    r
}

} // verus!
