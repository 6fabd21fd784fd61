//! Libraries: named roots of a music collection.
use crate::response::QueryError;
use vstd::prelude::*;

verus! {

/// A library record with its rollup totals.
pub struct Library {
    /// Library name, unique in the catalog.
    pub name: String,
    /// Canonical absolute path of the library root.
    pub path: String,
    /// Total playback duration of the linked tracks, in seconds.
    pub duration_seconds: u32,
    /// Total size of the linked tracks, in kilobytes.
    pub size_kilobytes: u64,
}

/// A library row as the store returns it: totals are absent when no track
/// is linked.
pub struct LibraryRow {
    pub name: Option<String>,
    pub path: Option<String>,
    pub duration_seconds: Option<u32>,
    pub size_kilobytes: Option<u64>,
}

/// `lib` is the record the row `row`, which has a name and a path, describes.
pub open spec fn describes_library(row: LibraryRow, lib: Library) -> bool {
    &&& Some(lib.name) == row.name
    &&& Some(lib.path) == row.path
    &&& lib.duration_seconds == (match row.duration_seconds {
        Some(d) => d,
        None => 0,
    })
    &&& lib.size_kilobytes == (match row.size_kilobytes {
        Some(s) => s,
        None => 0,
    })
}

impl Library {
    /// The record a row describes; an absent total is zero.
    pub fn from_row(row: LibraryRow) -> (r: Result<Library, QueryError>)
        ensures
            row.name is None || row.path is None ==> r matches Err(QueryError::MissingField),
            row.name is Some && row.path is Some ==> (r matches Ok(lib) && describes_library(row, lib)),
    {
        let LibraryRow { name, path, duration_seconds, size_kilobytes } = row;
        match (name, path) {
            (Some(name), Some(path)) => {
                let duration_seconds = match duration_seconds {
                    Some(d) => d,
                    None => 0,
                };
                let size_kilobytes = match size_kilobytes {
                    Some(s) => s,
                    None => 0,
                };
                Ok(Library { name, path, duration_seconds, size_kilobytes })
            },
            _ => Err(QueryError::MissingField),
        }
    }
}

} // verus!
