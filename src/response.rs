//! Store responses: the single named result block, and its rows as records.
use crate::dal::views;
use crate::formatter::text_eq;
use vstd::prelude::*;

verus! {

/// Why a read failed.
pub enum QueryError {
    /// The query declares no named result block.
    NoBlock,
    /// The query declares more than one named result block.
    MultipleBlocks,
    /// The store answered with an error list.
    Store(Vec<String>),
    /// The response lacks the query's result block.
    MissingBlock,
    /// A row lacks a field that the record requires.
    MissingField,
}

/// A block header: a name, an argument list, and an opening brace.
pub const BLOCK_HEADER: &'static str = r"\s*(\w+)\s*\(.*\)\s*\{";

/// The names that `BLOCK_HEADER` captures in a query, in order of its matches.
pub uninterp spec fn pattern_block_names(dql: Seq<char>) -> Seq<Seq<char>>;

/// Relies on `regex::Regex::new`, which compiles `BLOCK_HEADER` without
/// error, and on `Regex::captures_iter`: the first capture group of every
/// successive non-overlapping match.
#[verifier::external_body]
fn header_names(pattern: &str, dql: &str) -> (r: Vec<String>)
    requires
        pattern@ == BLOCK_HEADER@,
    ensures
        views(r@) == pattern_block_names(dql@),
{
    let regex = regex::Regex::new(pattern).expect("block-header pattern");
    regex.captures_iter(dql).map(|c| c[1].to_string()).collect()
}

/// Headers named `var` only bind variables: they are not result blocks.
pub open spec fn result_names(headers: Seq<Seq<char>>) -> Seq<Seq<char>>
    decreases headers.len(),
{
    if headers.len() == 0 {
        Seq::empty()
    } else if headers.last() == "var"@ {
        result_names(headers.drop_last())
    } else {
        result_names(headers.drop_last()).push(headers.last())
    }
}

/// The named result blocks that a query declares.
pub open spec fn block_names(dql: Seq<char>) -> Seq<Seq<char>> {
    result_names(pattern_block_names(dql))
}

/// The headers that name result blocks, in order.
pub fn result_block_names(headers: &Vec<String>) -> (r: Vec<String>)
    ensures
        views(r@) == result_names(views(headers@)),
{
    let ghost hs = views(headers@);
    let mut out: Vec<String> = Vec::new();
    let mut i: usize = 0;
    while i < headers.len()
        invariant
            i <= headers.len(),
            hs == views(headers@),
            views(out@) == result_names(hs.take(i as int)),
        decreases headers.len() - i,
    {
        assert(hs.take(i + 1).drop_last() =~= hs.take(i as int));
        if !text_eq(headers[i].as_str(), "var") {
            out.push(headers[i].clone());
            assert(views(out@) =~= result_names(hs.take(i as int)).push(hs[i as int]));
        }
        i = i + 1;
    }
    assert(hs.take(headers.len() as int) =~= hs);
    out
}

/// The name of the query's only result block; a query with none or with
/// several is refused before it is sent.
pub fn single_block_name(dql: &str) -> (r: Result<String, QueryError>)
    ensures
        block_names(dql@).len() == 0 ==> r matches Err(QueryError::NoBlock),
        block_names(dql@).len() > 1 ==> r matches Err(QueryError::MultipleBlocks),
        block_names(dql@).len() == 1 ==> (r matches Ok(n) && n@ == block_names(dql@)[0]),
{
    let headers = header_names(BLOCK_HEADER, dql);
    let mut names = result_block_names(&headers);
    if names.len() == 0 {
        Err(QueryError::NoBlock)
    } else if names.len() > 1 {
        Err(QueryError::MultipleBlocks)
    } else {
        Ok(names.swap_remove(0))
    }
}

/// The rows of one named block of a response.
pub struct ResultBlock<T> {
    pub name: String,
    pub rows: Vec<T>,
}

/// A decoded response: its blocks, and the errors the store reported.
pub struct QueryResponse<T> {
    pub data: Vec<ResultBlock<T>>,
    pub errors: Vec<String>,
}

/// `i` is the first block of `data` named `name`.
pub open spec fn first_block<T>(data: Seq<ResultBlock<T>>, name: Seq<char>, i: int) -> bool {
    &&& 0 <= i < data.len()
    &&& data[i].name@ == name
    &&& forall|j: int| 0 <= j < i ==> #[trigger] data[j].name@ != name
}

pub open spec fn has_block<T>(data: Seq<ResultBlock<T>>, name: Seq<char>) -> bool {
    exists|i: int| 0 <= i < data.len() && #[trigger] data[i].name@ == name
}

fn find_block<T>(data: &Vec<ResultBlock<T>>, name: &str) -> (r: Option<usize>)
    ensures
        r matches Some(i) ==> first_block(data@, name@, i as int),
        r is None ==> !has_block(data@, name@),
{
    let mut i: usize = 0;
    while i < data.len()
        invariant
            i <= data.len(),
            forall|j: int| 0 <= j < i ==> #[trigger] data@[j].name@ != name@,
        decreases data.len() - i,
    {
        if text_eq(data[i].name.as_str(), name) {
            return Some(i);
        }
        i = i + 1;
    }
    None
}

/// The rows of the block `name`, in the order of the response.
pub fn block_rows<T>(resp: QueryResponse<T>, name: &str) -> (r: Result<Vec<T>, QueryError>)
    ensures
        resp.errors.len() > 0 ==> (r matches Err(QueryError::Store(e)) && e@ == resp.errors@),
        resp.errors.len() == 0 && !has_block(resp.data@, name@) ==> r matches Err(
            QueryError::MissingBlock,
        ),
        forall|i: int|
            resp.errors.len() == 0 && first_block(resp.data@, name@, i) ==> (r matches Ok(rows)
                && rows@ == resp.data@[i].rows@),
{
    if resp.errors.len() > 0 {
        return Err(QueryError::Store(resp.errors));
    }
    match find_block(&resp.data, name) {
        None => Err(QueryError::MissingBlock),
        Some(i) => {
            let mut data = resp.data;
            let block = data.swap_remove(i);
            Ok(block.rows)
        },
    }
}

/// The first row of the block `name`, or none when the block is empty.
pub fn first_row<T>(resp: QueryResponse<T>, name: &str) -> (r: Result<Option<T>, QueryError>)
    ensures
        resp.errors.len() > 0 ==> (r matches Err(QueryError::Store(e)) && e@ == resp.errors@),
        resp.errors.len() == 0 && !has_block(resp.data@, name@) ==> r matches Err(
            QueryError::MissingBlock,
        ),
        forall|i: int|
            resp.errors.len() == 0 && first_block(resp.data@, name@, i) ==> (if resp.data@[i].rows.len()
                == 0 {
                r matches Ok(None)
            } else {
                r matches Ok(Some(row)) && row == resp.data@[i].rows@[0]
            }),
{
    let mut rows = block_rows(resp, name)?;
    if rows.len() == 0 {
        Ok(None)
    } else {
        Ok(Some(rows.swap_remove(0)))
    }
}

} // verus!
