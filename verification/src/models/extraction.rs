//! How the files of a container are to be extracted.
use vstd::prelude::*;

verus! {

/// The extraction method a container asks for in its labels.
#[derive(Debug, Clone, Copy, PartialEq, Eq, Structural)]
pub enum ExtractionType {
    File,
    TinyDB,
    SQLite,
    Pocketbase,
}

} // verus!
