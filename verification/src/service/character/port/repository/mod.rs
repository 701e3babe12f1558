//! The repository port of the character service: its errors, search
//! parameters and search results.
pub mod glue;

use crate::service::character::domain::{Character, CharacterView};
use vstd::prelude::*;
use vstd::string::*;

verus! {

/// Failures reported by a character repository.
#[derive(Debug)]
pub enum ErrorKind {
    Driver(String),
    InitializationFailed(String),
    NotEnabled,
    NotFound,
    PermissionDenied,
}

/// Model of [`ErrorKind`].
pub enum ErrorKindView {
    Driver(Seq<char>),
    InitializationFailed(Seq<char>),
    NotEnabled,
    NotFound,
    PermissionDenied,
}

impl View for ErrorKind {
    type V = ErrorKindView;

    open spec fn view(&self) -> ErrorKindView {
        match self {
            ErrorKind::Driver(s) => ErrorKindView::Driver(s@),
            ErrorKind::InitializationFailed(s) => ErrorKindView::InitializationFailed(s@),
            ErrorKind::NotEnabled => ErrorKindView::NotEnabled,
            ErrorKind::NotFound => ErrorKindView::NotFound,
            ErrorKind::PermissionDenied => ErrorKindView::PermissionDenied,
        }
    }
}

/// The human-readable description of a repository error.
pub open spec fn error_kind_message(e: ErrorKindView) -> Seq<char> {
    match e {
        ErrorKindView::Driver(s) => "driver implementation error : "@ + s,
        ErrorKindView::InitializationFailed(s) => "error occured when initializing repository : "@ + s,
        ErrorKindView::NotEnabled => "repository is not enabled"@,
        ErrorKindView::NotFound => "related data is not found"@,
        ErrorKindView::PermissionDenied => "permission denied to access this resource"@,
    }
}

impl ErrorKind {
    /// The human-readable description of this error.
    pub fn message(&self) -> (s: String)
        ensures
            s@ == error_kind_message(self@),
    {
        match self {
            ErrorKind::Driver(detail) => {
                let mut s = String::from_str("driver implementation error : ");
                s.append(detail.as_str());
                s
            },
            ErrorKind::InitializationFailed(detail) => {
                let mut s = String::from_str("error occured when initializing repository : ");
                s.append(detail.as_str());
                s
            },
            ErrorKind::NotEnabled => String::from_str("repository is not enabled"),
            ErrorKind::NotFound => String::from_str("related data is not found"),
            ErrorKind::PermissionDenied => String::from_str(
                "permission denied to access this resource",
            ),
        }
    }
}

/// Parameters of a character search. An empty or absent keyword does not filter.
pub struct FindParams {
    pub profile_id: Option<String>,
    pub profile_name: Option<String>,
    pub keyword: Option<String>,
    pub skip: i64,
    pub limit: Option<i64>,
}

/// Model of [`FindParams`].
pub struct FindParamsView {
    pub profile_id: Option<Seq<char>>,
    pub profile_name: Option<Seq<char>>,
    pub keyword: Option<Seq<char>>,
    pub skip: i64,
    pub limit: Option<i64>,
}

/// Model of an optional text.
pub open spec fn opt_text(s: Option<String>) -> Option<Seq<char>> {
    match s {
        Some(t) => Some(t@),
        None => None,
    }
}

impl View for FindParams {
    type V = FindParamsView;

    open spec fn view(&self) -> FindParamsView {
        FindParamsView {
            profile_id: opt_text(self.profile_id),
            profile_name: opt_text(self.profile_name),
            keyword: opt_text(self.keyword),
            skip: self.skip,
            limit: self.limit,
        }
    }
}

/// Result of a character search: the page of records, the number of matching
/// records, and the number of pages.
#[derive(Debug)]
pub struct FindResult {
    pub records: Vec<Character>,
    pub total_records: i64,
    pub total_pages: Option<i64>,
}

/// Model of [`FindResult`].
pub struct FindResultView {
    pub records: Seq<CharacterView>,
    pub total_records: i64,
    pub total_pages: Option<i64>,
}

impl View for FindResult {
    type V = FindResultView;

    open spec fn view(&self) -> FindResultView {
        FindResultView {
            records: self.records@.map_values(|c: Character| c@),
            total_records: self.total_records,
            total_pages: self.total_pages,
        }
    }
}

} // verus!
