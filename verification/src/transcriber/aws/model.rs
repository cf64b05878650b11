//! What the service tells of a transcript, as far as it is used.

use vstd::prelude::*;

verus! {

#[derive(Debug)]
pub struct AwsTranscriptEvent {
    pub transcript: AwsTranscript,
}

#[derive(Debug)]
pub struct AwsTranscript {
    pub results: Vec<AwsTranscriptResult>,
}

/// A stretch of speech.
#[derive(Debug)]
pub struct AwsTranscriptResult {
    /// The readings of what was said, the most likely one first.
    pub alternatives: Vec<AwsTranscriptAlternative>,
    /// Whether the service is still at work on this stretch.
    pub is_partial: bool,
    pub result_id: String,
}

/// One reading of a stretch of speech.
#[derive(Debug)]
pub struct AwsTranscriptAlternative {
    pub transcript: String,
    pub items: Vec<AwsTranscriptItem>,
}

/// A word or a punctuation mark.
#[derive(Debug)]
pub struct AwsTranscriptItem {
    /// Whether the item will not change any more.
    pub stable: bool,
    /// The confidence in the item, a double-precision number given by its bits.
    pub confidence: Option<u64>,
}

} // verus!
