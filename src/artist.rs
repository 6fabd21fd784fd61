//! Artists known to the catalog.
use vstd::prelude::*;

verus! {

/// An artist, keyed by its external catalog reference.
pub struct Artist {
    /// External catalog reference, when known.
    pub mbid: Option<String>,
    /// The names the artist is known as.
    pub names: Vec<String>,
}

impl Artist {
    /// An artist known by a single name.
    pub fn new(name: String, mbid: Option<String>) -> (r: Self)
        ensures
            r.mbid == mbid,
            r.names@ == seq![name],
    {
        let mut names: Vec<String> = Vec::new();
        names.push(name);
        Artist { mbid, names }
    }
}

} // verus!
