use vstd::prelude::*;

verus! {

/// Why a parse ended without a dataset.
#[derive(Debug, Clone, Copy, PartialEq, Eq)]
pub enum ParserError {
    /// The line source could not be opened.
    OpeningFile,
    /// A line of the source could not be read.
    ReadingLine,
    /// A pose block was interrupted before its third row.
    IncompletePose,
    /// An intrinsic matrix block was interrupted before its third row.
    IncompleteK,
    /// A pixel followed a point with no pose in between.
    UnexpectedPixel,
}

} // verus!
