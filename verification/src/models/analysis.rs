//! Types of the audio analysis that carry no floating-point value.

use vstd::prelude::*;

verus! {

/// A request to analyse one audio file of a project.
#[derive(Debug, Clone)]
pub struct AnalyzeAudioRequest {
    pub project_id: String,
    pub file_path: String,
}

} // verus!
