//! The endpoints of the graph store.
use vstd::prelude::*;

verus! {

/// Where the graph store answers.
pub struct DgraphClient {
    /// Base URL of the store's HTTP interface.
    pub base_url: String,
}

impl DgraphClient {
    pub fn new(base_url: String) -> (r: Self)
        ensures
            r.base_url == base_url,
    {
        DgraphClient { base_url }
    }

    fn endpoint(&self, path: &str) -> (r: String)
        ensures
            r@ == self.base_url@ + path@,
    {
        let mut url = self.base_url.clone();
        url.append(path);
        url
    }

    /// The schema and drop endpoint.
    pub fn alter_url(&self) -> (r: String)
        ensures
            r@ == self.base_url@ + "/alter"@,
    {
        self.endpoint("/alter")
    }

    /// The mutation endpoint, committing each request at once.
    pub fn mutate_url(&self) -> (r: String)
        ensures
            r@ == self.base_url@ + "/mutate?commitNow=true"@,
    {
        self.endpoint("/mutate?commitNow=true")
    }

    /// The read endpoint.
    pub fn query_url(&self) -> (r: String)
        ensures
            r@ == self.base_url@ + "/query"@,
    {
        self.endpoint("/query")
    }
}

} // verus!
