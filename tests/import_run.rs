use syrinx::artist::Artist;
use syrinx::client::DgraphClient;
use syrinx::library::LibraryRow;
use syrinx::metadata::{extract_metadata, AudioFile, MetadataError, Probe, Tag};
use syrinx::response::{QueryResponse, ResultBlock};
use syrinx::sync::{ImportRun, SyncError};
use syrinx::track::{ArtistRow, AudioRow, TrackRow};

fn library_answer(duration: Option<u32>, size: Option<u64>) -> QueryResponse<LibraryRow> {
    QueryResponse {
        data: vec![ResultBlock {
            name: "q".to_string(),
            rows: vec![LibraryRow {
                name: Some("Home".to_string()),
                path: Some("/music".to_string()),
                duration_seconds: duration,
                size_kilobytes: size,
            }],
        }],
        errors: Vec::new(),
    }
}

fn song_file() -> AudioFile {
    AudioFile { path: "/music/song.mp3".to_string(), size_bytes: 4096 * 1024, extension: Some("mp3".to_string()) }
}

fn song_probe() -> Probe {
    let tag = |k: &str, v: &str| Tag { key: k.to_string(), value: v.to_string() };
    Probe {
        visuals: Vec::new(),
        tags: vec![
            tag("TITLE", "Song"),
            tag("ARTIST", "Band"),
            tag("MUSICBRAINZ_ARTISTID", "a1"),
            tag("MUSICBRAINZ_RELEASETRACKID", "t1"),
        ],
        duration_seconds: Some(200),
    }
}

fn song_answer() -> QueryResponse<TrackRow> {
    QueryResponse {
        data: vec![ResultBlock {
            name: "q".to_string(),
            rows: vec![TrackRow {
                title: Some("Song".to_string()),
                artist: Some("Band".to_string()),
                original_year: None,
                duration_seconds: Some(200),
                track_ref: Some("t1".to_string()),
                artists: vec![ArtistRow { artist_ref: Some("a1".to_string()) }],
                album: Vec::new(),
                audio: vec![AudioRow { file_path: Some("/music/song.mp3".to_string()), file_size: Some(4096) }],
            }],
        }],
        errors: Vec::new(),
    }
}

#[test]
fn empty_library_has_zero_totals() {
    let (run, dql) = ImportRun::start("Home".to_string(), "/music".to_string(), true, Vec::new()).ok().unwrap();
    assert!(dql.contains("<Library.name> \"Home\""));
    let read = run.library_read().ok().unwrap();
    let lib = run.finish(&read, library_answer(None, None)).ok().unwrap();
    assert_eq!(lib.name, "Home");
    assert_eq!(lib.duration_seconds, 0);
    assert_eq!(lib.size_kilobytes, 0);
    assert_eq!(run.processed, 0);
}

#[test]
fn one_file_import_and_reimport() {
    let mut dqls = Vec::new();
    for _ in 0..2 {
        let (mut run, _) = ImportRun::start("Home".to_string(), "/music".to_string(), true, Vec::new()).ok().unwrap();
        let track = extract_metadata(&song_file(), Ok(Some(song_probe())));
        let pending = run.begin_track(track).ok().unwrap().unwrap();
        assert!(!pending.upsert.degraded);
        dqls.push(pending.upsert.dql.clone());
        let verified = run.finish_track(pending, song_answer()).ok().unwrap();
        assert!(verified.matches);
        assert_eq!(run.processed, 1);
        let read = run.library_read().ok().unwrap();
        let lib = run.finish(&read, library_answer(Some(200), Some(4096))).ok().unwrap();
        assert_eq!(lib.duration_seconds, 200);
        assert_eq!(lib.size_kilobytes, 4096);
    }
    assert_eq!(dqls[0], dqls[1]);
}

#[test]
fn bad_metadata_is_skipped_not_counted() {
    let (mut run, _) = ImportRun::start("Home".to_string(), "/music".to_string(), true, Vec::new()).ok().unwrap();
    let mut probe = song_probe();
    probe.tags[0].value = String::new();
    let track = extract_metadata(&song_file(), Ok(Some(probe)));
    assert!(matches!(track, Err(MetadataError::PoorMetadata)));
    assert!(run.begin_track(track).ok().unwrap().is_none());
    assert_eq!(run.processed, 0);
    assert_eq!(run.skipped, 1);
}

#[test]
fn mismatch_is_reported_not_fatal() {
    let (mut run, _) = ImportRun::start("Home".to_string(), "/music".to_string(), true, Vec::new()).ok().unwrap();
    let pending = run.begin_track(extract_metadata(&song_file(), Ok(Some(song_probe())))).ok().unwrap().unwrap();
    let mut answer = song_answer();
    answer.data[0].rows[0].title = Some("Other".to_string());
    let verified = run.finish_track(pending, answer).ok().unwrap();
    assert!(!verified.matches);
    assert_eq!(run.processed, 1);
}

#[test]
fn unreadable_track_fails_the_run() {
    let (mut run, _) = ImportRun::start("Home".to_string(), "/music".to_string(), true, Vec::new()).ok().unwrap();
    let pending = run.begin_track(extract_metadata(&song_file(), Ok(Some(song_probe())))).ok().unwrap().unwrap();
    let mut answer = song_answer();
    answer.data[0].rows.clear();
    assert!(matches!(run.finish_track(pending, answer), Err(SyncError::NotFound)));
    assert_eq!(run.processed, 0);
}

#[test]
fn root_must_be_a_directory() {
    assert!(matches!(
        ImportRun::start("Home".to_string(), "/music/a.mp3".to_string(), false, Vec::new()),
        Err(SyncError::NotADirectory)
    ));
    assert!(matches!(
        ImportRun::start(String::new(), "/music".to_string(), true, Vec::new()),
        Err(SyncError::Build(_))
    ));
}

#[test]
fn ignored_extensions_are_left_out() {
    let (run, _) = ImportRun::start("Home".to_string(), "/music".to_string(), true, vec!["txt".to_string(), "jpg".to_string()]).ok().unwrap();
    assert!(!run.accepts("TXT", true));
    assert!(!run.accepts("jpg", true));
    assert!(run.accepts("mp3", true));
    assert!(!run.accepts("mp3", false));
    assert!(run.accepts_lowered("flac", true));
    assert!(!run.accepts_lowered("txt", true));
}

#[test]
fn store_endpoints() {
    let c = DgraphClient::new("http://localhost:8080".to_string());
    assert_eq!(c.alter_url(), "http://localhost:8080/alter");
    assert_eq!(c.mutate_url(), "http://localhost:8080/mutate?commitNow=true");
    assert_eq!(c.query_url(), "http://localhost:8080/query");
}

#[test]
fn artist_with_one_name() {
    let a = Artist::new("Band".to_string(), Some("a1".to_string()));
    assert_eq!(a.names, vec!["Band".to_string()]);
    assert_eq!(a.mbid, Some("a1".to_string()));
}
