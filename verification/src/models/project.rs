//! Project requests and list queries.
//!
//! Tempo values are `f64` in the application; here a tempo travels as the
//! IEEE-754 bit pattern of that `f64` (`f64::to_bits`), which the library
//! never interprets and hands back unchanged.

use vstd::prelude::*;

verus! {

/// A request to import a folder as a project.
#[derive(Debug, Clone)]
pub struct ImportProjectRequest {
    pub name: String,
    pub path: String,
    pub artist: Option<String>,
    pub daw_type: Option<String>,
    pub tags: Option<Vec<String>>,
    pub keywords: Option<String>,
    pub notes: Option<String>,
}

/// A request to change some fields of a project; `None` leaves a field as it is.
#[derive(Debug, Clone)]
pub struct UpdateProjectRequest {
    pub id: String,
    pub name: Option<String>,
    pub artist: Option<String>,
    /// Bit pattern of the new tempo.
    pub bpm_bits: Option<u64>,
    pub musical_key: Option<String>,
    pub root_note: Option<String>,
    pub tags: Option<Vec<String>>,
    pub keywords: Option<String>,
    pub notes: Option<String>,
    pub description: Option<String>,
    pub favorite: Option<bool>,
    pub daw_type: Option<String>,
}

/// Filters and ordering for the project list; `None` means "no constraint".
#[derive(Debug, Clone)]
pub struct ListProjectsQuery {
    pub search: Option<String>,
    pub artist: Option<String>,
    /// Bit pattern of the lowest tempo shown.
    pub bpm_min_bits: Option<u64>,
    /// Bit pattern of the highest tempo shown.
    pub bpm_max_bits: Option<u64>,
    pub musical_key: Option<String>,
    pub root_note: Option<String>,
    pub tags: Option<Vec<String>>,
    pub keywords: Option<String>,
    pub favorite_only: Option<bool>,
    pub sort_by: Option<SortField>,
    pub sort_order: Option<SortOrder>,
    pub view: Option<ViewMode>,
}

impl Default for ListProjectsQuery {
    fn default() -> (r: Self)
        ensures
            r.search is None,
            r.artist is None,
            r.bpm_min_bits is None,
            r.bpm_max_bits is None,
            r.musical_key is None,
            r.root_note is None,
            r.tags is None,
            r.keywords is None,
            r.favorite_only is None,
            r.sort_by is None,
            r.sort_order is None,
            r.view is None,
    {
        ListProjectsQuery {
            search: None,
            artist: None,
            bpm_min_bits: None,
            bpm_max_bits: None,
            musical_key: None,
            root_note: None,
            tags: None,
            keywords: None,
            favorite_only: None,
            sort_by: None,
            sort_order: None,
            view: None,
        }
    }
}

/// The column the project list is ordered by.
#[derive(Debug, Clone, Copy, PartialEq, Eq, Structural)]
pub enum SortField {
    Name,
    DateAdded,
    LastOpened,
    Bpm,
    Artist,
}

/// Ascending or descending order.
#[derive(Debug, Clone, Copy, PartialEq, Eq, Structural)]
pub enum SortOrder {
    Asc,
    Desc,
}

/// How the front end lays out the list.
#[derive(Debug, Clone, Copy, PartialEq, Eq, Structural)]
pub enum ViewMode {
    Grid,
    List,
}

} // verus!
