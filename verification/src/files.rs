//! What reading a file gave.

use vstd::prelude::*;

verus! {

/// What reading a file gave.
#[derive(Debug)]
pub enum FileText {
    /// There is no such file.
    Missing,
    Contents(String),
    /// The file could not be read; what the system says about it.
    Failed(String),
}

/// What a [`FileText`] is.
#[verifier::ext_equal]
pub enum FileTextV {
    Missing,
    Contents(Seq<char>),
    Failed(Seq<char>),
}

impl View for FileText {
    type V = FileTextV;

    open spec fn view(&self) -> FileTextV {
        match self {
            FileText::Missing => FileTextV::Missing,
            FileText::Contents(contents) => FileTextV::Contents(contents@),
            FileText::Failed(reason) => FileTextV::Failed(reason@),
        }
    }
}

} // verus!
