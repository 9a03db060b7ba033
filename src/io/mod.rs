//! Molecule input.
use vstd::prelude::*;

pub mod formats;

verus! {

/// A molecule given as text in a format.
pub struct StringForMol {
    pub string: String,
    pub format: formats::InputFormat,
}

impl StringForMol {
    /// The text of `string`, read as `format`.
    pub fn new(string: String, format: formats::InputFormat) -> (r: Self)
        ensures
            r.string == string,
            r.format == format,
    {
        StringForMol { string, format }
    }

    /// The molecule's text.
    pub fn as_str(&self) -> (r: &str)
        ensures
            r@ == self.string@,
    {
        self.string.as_str()
    }
}

} // verus!
