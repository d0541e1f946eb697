//! Files, as far as the library hears of them.

use vstd::prelude::*;

verus! {

/// What came of reading a file.
pub enum FileRead {
    /// Its text.
    Text(String),
    /// There is no such file.
    Missing,
    /// It could not be read, for this reason.
    Failed(String),
}

} // verus!
