//! The raw JSON-shaped input records: an older flat form of the argument
//! specification, kept as plain data. Decoding from disk belongs to the
//! surrounding front end, which converts into these records.
use vstd::prelude::*;

verus! {

/// A positional parameter as it appears in the raw input.
#[derive(Debug)]
pub struct PItem {
    pub c_var: String,
    pub c_type: String,
    pub help: Option<String>,
}

/// A named option as it appears in the raw input.
#[derive(Debug)]
pub struct NPItem {
    pub c_var: String,
    pub c_type: String,
    pub name: String,
    pub short: Option<String>,
    pub aliases: Option<Vec<String>>,
    pub help: Option<String>,
    pub required: String,
    pub default: u8,
}

/// A whole raw specification.
#[derive(Debug)]
pub struct Spec {
    pub positional: Option<Vec<PItem>>,
    pub non_positional: Option<Vec<NPItem>>,
    pub c_file: String,
    pub optional: Option<String>,
}

} // verus!
