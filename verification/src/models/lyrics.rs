//! Lyric requests and responses.

use vstd::prelude::*;

verus! {

/// A lyric as handed to the front end.
#[derive(Debug, Clone)]
pub struct LyricResponse {
    pub id: String,
    pub project_id: String,
    pub title: Option<String>,
    pub content: String,
    pub section: Option<String>,
    pub language: Option<String>,
    pub created_at: String,
    pub updated_at: String,
}

/// A request to write a new lyric for a project.
#[derive(Debug, Clone)]
pub struct CreateLyricRequest {
    pub project_id: String,
    pub title: Option<String>,
    pub content: String,
    pub section: Option<String>,
    pub language: Option<String>,
}

/// A request to change some fields of a lyric; `None` leaves a field as it is.
#[derive(Debug, Clone)]
pub struct UpdateLyricRequest {
    pub id: String,
    pub title: Option<String>,
    pub content: Option<String>,
    pub section: Option<String>,
    pub language: Option<String>,
}

} // verus!
