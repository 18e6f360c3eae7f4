//! Helpers naming the shared directory of sample input files.

use vstd::prelude::*;

verus! {

/// The path of the directory holding shared sample input files.
pub fn test_inputs_dir() -> (r: String)
    ensures
        r@ == "tests/assets"@,
{
    String::from_str("tests/assets")
}

/// The path of one sample input file.
pub fn test_file_path(filename: &str) -> (r: String)
    ensures
        r@ == "tests/assets/"@ + filename@,
{
    String::from_str("tests/assets/").concat(filename)
}

} // verus!
