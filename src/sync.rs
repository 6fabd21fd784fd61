//! One import run: the decisions between the store round-trips.
//!
//! The caller performs each request that a step hands out and brings back
//! the answer; files are processed one at a time, in discovery order.
use crate::dal::{track_keys_valid, track_upsert, upsert_library, upsert_track, views, BuildError, TrackUpsert};
use crate::dql::{library_read, library_read_dql, library_upsert, track_read, track_read_dql};
use crate::formatter::text_eq;
use crate::library::{describes_library, Library, LibraryRow};
use crate::metadata::MetadataError;
use crate::response::{
    block_names, first_block, first_row, has_block, single_block_name, QueryError, QueryResponse,
};
use crate::track::{describes, row_complete, Track, TrackRow};
use vstd::prelude::*;

verus! {

/// Why a run stopped.
pub enum SyncError {
    /// The library root is not a directory.
    NotADirectory,
    /// A transaction could not be built.
    Build(BuildError),
    /// A read failed or was refused.
    Query(QueryError),
    /// The record just written could not be read back.
    NotFound,
}

/// A read that declares exactly one result block, ready to send.
pub struct PreparedRead {
    pub dql: String,
    /// The name of its result block.
    pub block: String,
}

/// Checks that `dql` declares exactly one result block; only a read that
/// passes may be sent.
pub fn prepare_read(dql: String) -> (r: Result<PreparedRead, QueryError>)
    ensures
        block_names(dql@).len() == 0 ==> r matches Err(QueryError::NoBlock),
        block_names(dql@).len() > 1 ==> r matches Err(QueryError::MultipleBlocks),
        block_names(dql@).len() == 1 ==> (r matches Ok(p) && p.dql == dql && p.block@ == block_names(
            dql@,
        )[0]),
{
    let block = single_block_name(dql.as_str())?;
    Ok(PreparedRead { dql, block })
}

/// A track whose upsert is ready, with the read that verifies it.
pub struct PendingTrack {
    pub track: Track,
    pub upsert: TrackUpsert,
    pub read: PreparedRead,
}

/// A track read back after its upsert.
pub struct Verified {
    /// The store's canonical view of the track.
    pub track: Track,
    /// Whether it agrees with what was submitted.
    pub matches: bool,
}

/// The store's record agrees with the submitted one on every written scalar.
pub open spec fn agrees(submitted: Track, stored: Track) -> bool {
    &&& stored.title@ == submitted.title@
    &&& stored.artist@ == submitted.artist@
    &&& stored.track_ref@ == submitted.track_ref@
    &&& stored.original_year == submitted.original_year
    &&& stored.duration_seconds == submitted.duration_seconds
    &&& stored.file_path@ == submitted.file_path@
    &&& stored.file_size == submitted.file_size
}

/// Counting up, stopping at the largest value.
pub open spec fn bump(n: u64) -> u64 {
    if n < u64::MAX {
        (n + 1) as u64
    } else {
        n
    }
}

fn bumped(n: u64) -> (r: u64)
    ensures
        r == bump(n),
{
    if n < u64::MAX {
        n + 1
    } else {
        n
    }
}

/// A text in lower case, as `str::to_lowercase` gives it.
pub uninterp spec fn lower_of(s: Seq<char>) -> Seq<char>;

/// Relies on `str::to_lowercase`: a function of the characters alone.
#[verifier::external_body]
fn lowercase(s: &str) -> (r: String)
    ensures
        r@ == lower_of(s@),
{
    s.to_lowercase()
}

/// The state of one import run.
pub struct ImportRun {
    /// The library's name.
    pub name: String,
    /// The library's canonical root.
    pub root: String,
    /// Lower-case extensions of the files to leave out.
    pub ignore: Vec<String>,
    /// Files whose track was committed and read back.
    pub processed: u64,
    /// Files that yielded no track.
    pub skipped: u64,
}

impl ImportRun {
    /// Starts a run for the library `name` rooted at `root`, with the
    /// transaction that creates the library if it does not exist yet.
    pub fn start(name: String, root: String, root_is_dir: bool, ignore: Vec<String>) -> (r: Result<
        (ImportRun, String),
        SyncError,
    >)
        ensures
            !root_is_dir ==> r matches Err(SyncError::NotADirectory),
            root_is_dir && name@.len() == 0 ==> r matches Err(SyncError::Build(BuildError::EmptyKey)),
            root_is_dir && name@.len() > 0 ==> (r matches Ok((run, dql)) && run.name == name && run.root
                == root && run.ignore == ignore && run.processed == 0 && run.skipped == 0 && dql@
                == library_upsert(name@, root@)),
    {
        if !root_is_dir {
            return Err(SyncError::NotADirectory);
        }
        match upsert_library(name.as_str(), root.as_str()) {
            Err(e) => Err(SyncError::Build(e)),
            Ok(dql) => Ok((ImportRun { name, root, ignore, processed: 0, skipped: 0 }, dql)),
        }
    }

    /// Whether a directory entry is a file to import, given its extension
    /// in lower case.
    pub fn accepts_lowered(&self, lowered: &str, is_file: bool) -> (r: bool)
        ensures
            r == (is_file && !views(self.ignore@).contains(lowered@)),
    {
        let mut i: usize = 0;
        while i < self.ignore.len()
            invariant
                i <= self.ignore.len(),
                forall|j: int| 0 <= j < i ==> #[trigger] self.ignore@[j]@ != lowered@,
            decreases self.ignore.len() - i,
        {
            if text_eq(self.ignore[i].as_str(), lowered) {
                assert(views(self.ignore@)[i as int] == lowered@);
                return false;
            }
            i = i + 1;
        }
        proof {
            if views(self.ignore@).contains(lowered@) {
                let k = choose|k: int| 0 <= k < views(self.ignore@).len() && views(self.ignore@)[k] == lowered@;
                assert(self.ignore@[k]@ == lowered@);
            }
        }
        is_file
    }

    /// Whether a directory entry is a file to import, given its extension
    /// as it stands (empty when it has none).
    pub fn accepts(&self, extension: &str, is_file: bool) -> (r: bool)
        ensures
            r == (is_file && !views(self.ignore@).contains(lower_of(extension@))),
    {
        let lowered = lowercase(extension);
        self.accepts_lowered(lowered.as_str(), is_file)
    }

    /// Takes what a file yielded: a refused file is skipped, a track gets
    /// its upsert and the read that verifies it.
    pub fn begin_track(&mut self, extracted: Result<Track, MetadataError>) -> (r: Result<
        Option<PendingTrack>,
        SyncError,
    >)
        ensures
            final(self).name == old(self).name,
            final(self).root == old(self).root,
            final(self).ignore == old(self).ignore,
            final(self).processed == old(self).processed,
            extracted is Err ==> (r matches Ok(None) && final(self).skipped == bump(old(self).skipped)),
            extracted is Ok ==> final(self).skipped == old(self).skipped,
            r matches Ok(Some(p)) ==> extracted == Ok::<Track, MetadataError>(p.track),
            extracted matches Ok(t) ==> {
                let keys_ok = track_keys_valid(old(self).name@, t);
                let names = block_names(track_read(t.track_ref@));
                &&& (!keys_ok ==> (r matches Err(SyncError::Build(BuildError::EmptyKey))))
                &&& (keys_ok && names.len() != 1 ==> (r matches Err(SyncError::Query(_))))
                &&& keys_ok && names.len() == 1 ==> (r matches Ok(Some(p)) && p.upsert.dql@
                    == track_upsert(old(self).name@, t) && p.upsert.degraded == (t.artist_ref.len()
                    > 1) && p.read.dql@ == track_read(t.track_ref@) && p.read.block@ == names[0])
            },
    {
        match extracted {
            Err(_) => {
                self.skipped = bumped(self.skipped);
                Ok(None)
            },
            Ok(track) => {
                let upsert = match upsert_track(self.name.as_str(), &track) {
                    Err(e) => {
                        return Err(SyncError::Build(e));
                    },
                    Ok(u) => u,
                };
                let read = match prepare_read(track_read_dql(track.track_ref.as_str())) {
                    Err(e) => {
                        return Err(SyncError::Query(e));
                    },
                    Ok(p) => p,
                };
                Ok(Some(PendingTrack { track, upsert, read }))
            },
        }
    }

    /// Takes the answer to the verifying read of a committed track.
    pub fn finish_track(&mut self, pending: PendingTrack, resp: QueryResponse<TrackRow>) -> (r: Result<
        Verified,
        SyncError,
    >)
        ensures
            final(self).name == old(self).name,
            final(self).root == old(self).root,
            final(self).ignore == old(self).ignore,
            final(self).skipped == old(self).skipped,
            final(self).processed == (if r is Ok {
                bump(old(self).processed)
            } else {
                old(self).processed
            }),
            resp.errors.len() > 0 ==> r matches Err(SyncError::Query(QueryError::Store(_))),
            resp.errors.len() == 0 && !has_block(resp.data@, pending.read.block@) ==> r matches Err(
                SyncError::Query(QueryError::MissingBlock),
            ),
            forall|i: int|
                resp.errors.len() == 0 && first_block(resp.data@, pending.read.block@, i) ==> {
                    let rows = resp.data@[i].rows@;
                    &&& (rows.len() == 0 ==> (r matches Err(SyncError::NotFound)))
                    &&& (rows.len() > 0 && !row_complete(rows[0]) ==> (r matches Err(
                        SyncError::Query(QueryError::MissingField),
                    )))
                    &&& rows.len() > 0 && row_complete(rows[0]) ==> (r matches Ok(v) && describes(
                        rows[0],
                        v.track,
                    ) && v.matches == agrees(pending.track, v.track))
                },
    {
        let row = match first_row(resp, pending.read.block.as_str()) {
            Err(e) => {
                return Err(SyncError::Query(e));
            },
            Ok(None) => {
                return Err(SyncError::NotFound);
            },
            Ok(Some(row)) => row,
        };
        let track = match Track::from_row(row) {
            Err(e) => {
                return Err(SyncError::Query(e));
            },
            Ok(t) => t,
        };
        let submitted = &pending.track;
        let matches = text_eq(track.title.as_str(), submitted.title.as_str()) && text_eq(
            track.artist.as_str(),
            submitted.artist.as_str(),
        ) && text_eq(track.track_ref.as_str(), submitted.track_ref.as_str())
            && track.original_year == submitted.original_year && track.duration_seconds
            == submitted.duration_seconds && text_eq(
            track.file_path.as_str(),
            submitted.file_path.as_str(),
        ) && track.file_size == submitted.file_size;
        self.processed = bumped(self.processed);
        Ok(Verified { track, matches })
    }

    /// The read that aggregates the library's totals once every file is done.
    pub fn library_read(&self) -> (r: Result<PreparedRead, SyncError>)
        ensures
            block_names(library_read(self.name@)).len() == 1 ==> (r matches Ok(p) && p.dql@
                == library_read(self.name@) && p.block@ == block_names(library_read(self.name@))[0]),
            block_names(library_read(self.name@)).len() != 1 ==> r matches Err(SyncError::Query(_)),
    {
        match prepare_read(library_read_dql(self.name.as_str())) {
            Err(e) => Err(SyncError::Query(e)),
            Ok(p) => Ok(p),
        }
    }

    /// Takes the answer to the aggregating read: the library with its totals.
    pub fn finish(&self, read: &PreparedRead, resp: QueryResponse<LibraryRow>) -> (r: Result<
        Library,
        SyncError,
    >)
        ensures
            resp.errors.len() > 0 ==> r matches Err(SyncError::Query(QueryError::Store(_))),
            resp.errors.len() == 0 && !has_block(resp.data@, read.block@) ==> r matches Err(
                SyncError::Query(QueryError::MissingBlock),
            ),
            forall|i: int|
                resp.errors.len() == 0 && first_block(resp.data@, read.block@, i) ==> {
                    let rows = resp.data@[i].rows@;
                    &&& (rows.len() == 0 ==> (r matches Err(SyncError::NotFound)))
                    &&& (rows.len() > 0 && (rows[0].name is None || rows[0].path is None) ==> (r matches Err(
                        SyncError::Query(QueryError::MissingField),
                    )))
                    &&& rows.len() > 0 && rows[0].name is Some && rows[0].path is Some ==> (r matches Ok(
                        lib,
                    ) && describes_library(rows[0], lib))
                },
    {
        match first_row(resp, read.block.as_str()) {
            Err(e) => Err(SyncError::Query(e)),
            Ok(None) => Err(SyncError::NotFound),
            Ok(Some(row)) => match Library::from_row(row) {
                Err(e) => Err(SyncError::Query(e)),
                Ok(lib) => Ok(lib),
            },
        }
    }
}

} // verus!
