use syrinx::library::{Library, LibraryRow};
use syrinx::response::{block_rows, first_row, single_block_name, QueryError, QueryResponse, ResultBlock};
use syrinx::sync::prepare_read;
use syrinx::track::{AlbumRow, ArtistRow, AudioRow, Track, TrackRow};

fn response(blocks: Vec<(&str, Vec<u32>)>, errors: Vec<&str>) -> QueryResponse<u32> {
    QueryResponse {
        data: blocks
            .into_iter()
            .map(|(n, rows)| ResultBlock { name: n.to_string(), rows })
            .collect(),
        errors: errors.into_iter().map(|e| e.to_string()).collect(),
    }
}

#[test]
fn two_named_blocks_are_refused() {
    let dql = "{\na(func: eq(<Library.name>, \"x\")) {\nuid\n}\nb(func: eq(<Library.name>, \"y\")) {\nuid\n}\n}";
    assert!(matches!(single_block_name(dql), Err(QueryError::MultipleBlocks)));
    assert!(matches!(prepare_read(dql.to_string()), Err(QueryError::MultipleBlocks)));
}

#[test]
fn no_named_block_is_refused() {
    assert!(matches!(single_block_name(""), Err(QueryError::NoBlock)));
    let only_var = "{\nvar(func: eq(<Library.name>, \"x\")) {\nuid\n}\n}";
    assert!(matches!(single_block_name(only_var), Err(QueryError::NoBlock)));
}

#[test]
fn variable_blocks_do_not_count() {
    let dql = syrinx::dql::library_read_dql("Home");
    assert_eq!(single_block_name(&dql).ok().unwrap(), "q");
    let read = prepare_read(syrinx::dql::track_read_dql("t1")).ok().unwrap();
    assert_eq!(read.block, "q");
}

#[test]
fn first_row_of_named_block() {
    let r = first_row(response(vec![("other", vec![9]), ("q", vec![4, 5])], vec![]), "q");
    assert_eq!(r.ok().unwrap(), Some(4));
}

#[test]
fn empty_block_is_no_row() {
    let r = first_row(response(vec![("q", vec![])], vec![]), "q");
    assert_eq!(r.ok().unwrap(), None);
}

#[test]
fn rows_keep_response_order() {
    let r = block_rows(response(vec![("q", vec![3, 1, 2])], vec![]), "q");
    assert_eq!(r.ok().unwrap(), vec![3, 1, 2]);
}

#[test]
fn store_errors_fail_the_read() {
    let r = first_row(response(vec![("q", vec![1])], vec!["bad query"]), "q");
    match r {
        Err(QueryError::Store(e)) => assert_eq!(e, vec!["bad query".to_string()]),
        _ => panic!("expected a store error"),
    }
}

#[test]
fn missing_block_fails_the_read() {
    let r = first_row(response(vec![("p", vec![1])], vec![]), "q");
    assert!(matches!(r, Err(QueryError::MissingBlock)));
}

#[test]
fn library_without_tracks_has_zero_totals() {
    let row = LibraryRow {
        name: Some("Home".to_string()),
        path: Some("/music".to_string()),
        duration_seconds: None,
        size_kilobytes: None,
    };
    let lib = Library::from_row(row).ok().unwrap();
    assert_eq!(lib.name, "Home");
    assert_eq!(lib.path, "/music");
    assert_eq!(lib.duration_seconds, 0);
    assert_eq!(lib.size_kilobytes, 0);
}

#[test]
fn library_row_without_name_is_malformed() {
    let row = LibraryRow { name: None, path: Some("/m".to_string()), duration_seconds: Some(1), size_kilobytes: Some(2) };
    assert!(matches!(Library::from_row(row), Err(QueryError::MissingField)));
}

fn track_row() -> TrackRow {
    TrackRow {
        title: Some("Song".to_string()),
        artist: Some("Band".to_string()),
        original_year: None,
        duration_seconds: Some(200),
        track_ref: Some("t1".to_string()),
        artists: vec![ArtistRow { artist_ref: Some("a1".to_string()) }, ArtistRow { artist_ref: None }],
        album: vec![AlbumRow { album_ref: Some("b1".to_string()), title: Some("Blue".to_string()) }],
        audio: vec![AudioRow { file_path: Some("/music/song.mp3".to_string()), file_size: Some(4096) }],
    }
}

#[test]
fn nested_traversals_are_flattened() {
    let t = Track::from_row(track_row()).ok().unwrap();
    assert_eq!(t.title, "Song");
    assert_eq!(t.artist_ref, vec!["a1".to_string()]);
    assert_eq!(t.album_ref, Some("b1".to_string()));
    assert_eq!(t.album, Some("Blue".to_string()));
    assert_eq!(t.file_path, "/music/song.mp3");
    assert_eq!(t.file_size, 4096);
    assert_eq!(t.original_year, None);
    assert_eq!(t.duration_seconds, Some(200));
}

#[test]
fn track_row_without_audio_is_malformed() {
    let mut row = track_row();
    row.audio = Vec::new();
    assert!(matches!(Track::from_row(row), Err(QueryError::MissingField)));
    let mut row = track_row();
    row.title = None;
    assert!(matches!(Track::from_row(row), Err(QueryError::MissingField)));
}
