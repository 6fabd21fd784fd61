//! Tracks: one recording, the file that holds it, and what its tags say.
use crate::dal::views;
use crate::metadata::{extract_metadata, yields, AudioFile, MetadataError, Probe};
use crate::response::QueryError;
use vstd::prelude::*;

verus! {

/// A track as extracted from a file or as read back from the store.
pub struct Track {
    /// Title as a music player should display it.
    pub title: String,
    /// Artist as a music player should display it.
    pub artist: String,
    /// External catalog references of the track's artists.
    pub artist_ref: Vec<String>,
    /// Original release year.
    pub original_year: Option<u16>,
    /// Title of the album the track belongs to.
    pub album: Option<String>,
    /// External catalog reference of that album.
    pub album_ref: Option<String>,
    /// Free-form tags.
    pub tags: Vec<String>,
    /// Recording reference: the track's natural key.
    pub track_ref: String,
    /// Playback duration in seconds.
    pub duration_seconds: Option<u32>,
    /// Absolute path of the audio file.
    pub file_path: String,
    /// Size of the audio file in kilobytes.
    pub file_size: u64,
    /// File name extension of the audio file.
    pub extension: String,
    /// Media type guessed from the extension.
    pub mime_type: String,
    /// Media type of the embedded picture.
    pub picture_mime_type: Option<String>,
    /// Embedded picture, base64 encoded.
    pub picture: Option<String>,
}

/// An artist nested under a track row.
pub struct ArtistRow {
    pub artist_ref: Option<String>,
}

/// An album nested under a track row.
pub struct AlbumRow {
    pub album_ref: Option<String>,
    pub title: Option<String>,
}

/// An audio file nested under a track row.
pub struct AudioRow {
    pub file_path: Option<String>,
    pub file_size: Option<u64>,
}

/// A track row as the store returns it, with its traversals nested.
pub struct TrackRow {
    pub title: Option<String>,
    pub artist: Option<String>,
    pub original_year: Option<u16>,
    pub duration_seconds: Option<u32>,
    pub track_ref: Option<String>,
    pub artists: Vec<ArtistRow>,
    pub album: Vec<AlbumRow>,
    pub audio: Vec<AudioRow>,
}

/// The artist references present in the nested artist rows, in order.
pub open spec fn present_refs(rows: Seq<ArtistRow>) -> Seq<Seq<char>>
    decreases rows.len(),
{
    if rows.len() == 0 {
        Seq::empty()
    } else {
        match rows.last().artist_ref {
            Some(r) => present_refs(rows.drop_last()).push(r@),
            None => present_refs(rows.drop_last()),
        }
    }
}

/// A row has what a track record requires: title, display artist,
/// recording reference, and an audio file with path and size.
pub open spec fn row_complete(row: TrackRow) -> bool {
    &&& row.title is Some
    &&& row.artist is Some
    &&& row.track_ref is Some
    &&& row.audio.len() > 0
    &&& row.audio@[0].file_path is Some
    &&& row.audio@[0].file_size is Some
}

fn artist_refs(rows: &Vec<ArtistRow>) -> (r: Vec<String>)
    ensures
        views(r@) == present_refs(rows@),
{
    let mut out: Vec<String> = Vec::new();
    let mut i: usize = 0;
    while i < rows.len()
        invariant
            i <= rows.len(),
            views(out@) == present_refs(rows@.take(i as int)),
        decreases rows.len() - i,
    {
        assert(rows@.take(i + 1).drop_last() =~= rows@.take(i as int));
        match &rows[i].artist_ref {
            Some(r) => {
                out.push(r.clone());
                assert(views(out@) =~= present_refs(rows@.take(i as int)).push(r@));
            },
            None => {},
        }
        i = i + 1;
    }
    assert(rows@.take(rows.len() as int) =~= rows@);
    out
}

/// `t` is the record the complete row `row` describes.
pub open spec fn describes(row: TrackRow, t: Track) -> bool {
    &&& Some(t.title) == row.title
    &&& Some(t.artist) == row.artist
    &&& Some(t.track_ref) == row.track_ref
    &&& t.original_year == row.original_year
    &&& t.duration_seconds == row.duration_seconds
    &&& views(t.artist_ref@) == present_refs(row.artists@)
    &&& t.album_ref == (if row.album.len() > 0 {
        row.album@[0].album_ref
    } else {
        None
    })
    &&& t.album == (if row.album.len() > 0 {
        row.album@[0].title
    } else {
        None
    })
    &&& Some(t.file_path) == row.audio@[0].file_path
    &&& Some(t.file_size) == row.audio@[0].file_size
    &&& t.tags@.len() == 0
    &&& t.extension@.len() == 0
    &&& t.mime_type@.len() == 0
    &&& t.picture_mime_type is None
    &&& t.picture is None
}

impl Track {
    /// The track an audio file yields, given what probing it found.
    pub fn from_file(file: &AudioFile, probed: Result<Option<Probe>, String>) -> (r: Result<
        Self,
        MetadataError,
    >)
        ensures
            yields(*file, probed, r),
    {
        extract_metadata(file, probed)
    }

    /// The record a row describes: nested traversals become the track's own
    /// fields, absent optional predicates become no value.
    pub fn from_row(row: TrackRow) -> (r: Result<Track, QueryError>)
        ensures
            !row_complete(row) ==> r matches Err(QueryError::MissingField),
            row_complete(row) ==> (r matches Ok(t) && describes(row, t)),
    {
        let artist_ref = artist_refs(&row.artists);
        let TrackRow {
            title,
            artist,
            original_year,
            duration_seconds,
            track_ref,
            artists: _,
            album: mut albums,
            audio: mut audio,
        } = row;
        if audio.len() == 0 {
            return Err(QueryError::MissingField);
        }
        let AudioRow { file_path, file_size } = audio.swap_remove(0);
        let (album_ref, album) = if albums.len() > 0 {
            let AlbumRow { album_ref, title } = albums.swap_remove(0);
            (album_ref, title)
        } else {
            (None, None)
        };
        match (title, artist, track_ref, file_path, file_size) {
            (Some(title), Some(artist), Some(track_ref), Some(file_path), Some(file_size)) => {
                Ok(Track {
                    title,
                    artist,
                    artist_ref,
                    original_year,
                    album,
                    album_ref,
                    tags: Vec::new(),
                    track_ref,
                    duration_seconds,
                    file_path,
                    file_size,
                    extension: String::new(),
                    mime_type: String::new(),
                    picture_mime_type: None,
                    picture: None,
                })
            },
            _ => Err(QueryError::MissingField),
        }
    }
}

} // verus!
