//! The pipeline's error taxonomy: one variant per stage that can fail.
use vstd::prelude::*;

verus! {

#[derive(Clone, Copy, Debug, PartialEq, Eq, Structural)]
pub enum ImageError {
    /// A malformed sample buffer or file header.
    Ingestion,
    /// Demosaic was asked of a frame without a colour filter pattern.
    Demosaic,
    /// The requested or resulting target size is degenerate.
    Downsample,
    /// Statistics of an empty channel.
    Statistics,
    /// The packaged result would break its size invariant.
    Packaging,
}

/// The reported name of each stage.
pub open spec fn stage_name(e: ImageError) -> Seq<char> {
    match e {
        ImageError::Ingestion => seq!['i', 'n', 'g', 'e', 's', 't', 'i', 'o', 'n'],
        ImageError::Demosaic => seq!['d', 'e', 'm', 'o', 's', 'a', 'i', 'c'],
        ImageError::Downsample => seq!['d', 'o', 'w', 'n', 's', 'a', 'm', 'p', 'l', 'e'],
        ImageError::Statistics => seq!['s', 't', 'a', 't', 'i', 's', 't', 'i', 'c', 's'],
        ImageError::Packaging => seq!['p', 'a', 'c', 'k', 'a', 'g', 'i', 'n', 'g'],
    }
}

impl ImageError {
    /// The name of the stage that failed, for reporting.
    pub fn stage(&self) -> (r: &'static str)
        ensures
            r@ == stage_name(*self),
    {
        proof {
            reveal_strlit("ingestion");
            reveal_strlit("demosaic");
            reveal_strlit("downsample");
            reveal_strlit("statistics");
            reveal_strlit("packaging");
        }
        match self {
            ImageError::Ingestion => "ingestion",
            ImageError::Demosaic => "demosaic",
            ImageError::Downsample => "downsample",
            ImageError::Statistics => "statistics",
            ImageError::Packaging => "packaging",
        }
    }
}

} // verus!
