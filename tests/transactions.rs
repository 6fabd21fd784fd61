use syrinx::dal::{upsert_library, upsert_track, BuildError};
use syrinx::dql::{library_read_dql, track_read_dql};
use syrinx::track::Track;

fn track(artist_ref: Vec<&str>, year: Option<u16>) -> Track {
    Track {
        title: "Song".to_string(),
        artist: "Band".to_string(),
        artist_ref: artist_ref.into_iter().map(|s| s.to_string()).collect(),
        original_year: year,
        album: None,
        album_ref: None,
        tags: Vec::new(),
        track_ref: "t1".to_string(),
        duration_seconds: Some(200),
        file_path: "/music/song.mp3".to_string(),
        file_size: 4096,
        extension: "mp3".to_string(),
        mime_type: "audio/mpeg".to_string(),
        picture_mime_type: None,
        picture: None,
    }
}

#[test]
fn no_year_no_year_statement() {
    let u = upsert_track("Home", &track(vec!["a1"], None)).ok().unwrap();
    assert!(!u.dql.contains("originalYear"));
}

#[test]
fn year_gives_exactly_one_year_statement() {
    let u = upsert_track("Home", &track(vec!["a1"], Some(1994))).ok().unwrap();
    assert_eq!(u.dql.matches("<CreativeWork.originalYear>").count(), 1);
    assert!(u.dql.contains("uid(t) <CreativeWork.originalYear> \"1994\" .\n"));
}

#[test]
fn two_artists_one_name_is_degraded() {
    let u = upsert_track("Home", &track(vec!["A1", "A2"], None)).ok().unwrap();
    let mut t = track(vec!["A1", "A2"], None);
    t.artist = "X".to_string();
    let u2 = upsert_track("Home", &t).ok().unwrap();
    assert!(u.degraded);
    assert!(u2.degraded);
    assert!(u2.dql.contains("ar0 as var(func: eq(<Artist.mbid>, \"A1\"))\n"));
    assert!(u2.dql.contains("ar1 as var(func: eq(<Artist.mbid>, \"A2\"))\n"));
    assert!(u2.dql.contains("uid(ar0) <Artist.names> \"X\" .\n"));
    assert!(u2.dql.contains("uid(ar1) <Artist.names> \"X\" .\n"));
    assert_eq!(u2.dql.matches("<Artist.names>").count(), 2);
    assert_eq!(u2.dql.matches("<CreativeWork.byArtist>").count(), 2);
}

#[test]
fn single_artist_is_not_degraded() {
    let u = upsert_track("Home", &track(vec!["a1"], None)).ok().unwrap();
    assert!(!u.degraded);
    assert!(u.dql.contains("uid(ar0) <Artist.names> \"Band\" .\n"));
    assert!(!u.dql.contains("ar1"));
}

#[test]
fn uncatalogued_artist_has_no_artist_statements() {
    let u = upsert_track("Home", &track(vec![], None)).ok().unwrap();
    assert!(!u.degraded);
    assert!(!u.dql.contains("<Artist.mbid>"));
}

#[test]
fn track_upsert_text() {
    let u = upsert_track("Home", &track(vec!["a1"], None)).ok().unwrap();
    let expected = "upsert {\nquery {\n\
l as var(func: eq(<Library.name>, \"Home\"))\n\
ar0 as var(func: eq(<Artist.mbid>, \"a1\"))\n\
au as var(func: eq(<AudioObject.filepath>, \"/music/song.mp3\"))\n\
t as var(func: eq(<MusicRecording.mbid>, \"t1\"))\n\
}\nmutation {\nset {\n\
uid(l) <dgraph.type> \"Library\" .\n\
uid(l) <Library.name> \"Home\" .\n\
uid(l) <Library.track> uid(t) .\n\
uid(l) <Library.artist> uid(ar0) .\n\
uid(ar0) <dgraph.type> \"Artist\" .\n\
uid(ar0) <Artist.mbid> \"a1\" .\n\
uid(ar0) <Artist.names> \"Band\" .\n\
uid(t) <CreativeWork.byArtist> uid(ar0) .\n\
uid(t) <dgraph.type> \"MusicRecording\" .\n\
uid(t) <MusicRecording.mbid> \"t1\" .\n\
uid(t) <CreativeWork.title> \"Song\" .\n\
uid(t) <CreativeWork.artist> \"Band\" .\n\
uid(t) <MusicRecording.audio> uid(au) .\n\
uid(t) <MusicRecording.durationSeconds> \"200\" .\n\
uid(t) <MusicRecording.sizeKilobytes> \"4096\" .\n\
uid(au) <dgraph.type> \"AudioObject\" .\n\
uid(au) <AudioObject.sizeKilobytes> \"4096\" .\n\
uid(au) <AudioObject.filepath> \"/music/song.mp3\" .\n\
}\n}\n}\n";
    assert_eq!(u.dql, expected);
}

#[test]
fn album_statements_only_with_album_reference() {
    let mut t = track(vec!["a1"], None);
    t.album = Some("Blue".to_string());
    let without = upsert_track("Home", &t).ok().unwrap();
    assert!(!without.dql.contains("uid(al)"));
    t.album_ref = Some("b1".to_string());
    let with = upsert_track("Home", &t).ok().unwrap();
    assert!(with.dql.contains("al as var(func: eq(<Album.mbid>, \"b1\"))\n"));
    assert!(with.dql.contains("uid(al) <Album.mbid> \"b1\" .\n"));
    assert!(with.dql.contains("uid(al) <CreativeWork.title> \"Blue\" .\n"));
    assert!(with.dql.contains("uid(t) <MusicRecording.inAlbum> uid(al) .\n"));
}

#[test]
fn same_track_same_transaction() {
    let a = upsert_track("Home", &track(vec!["a1"], Some(1994))).ok().unwrap();
    let b = upsert_track("Home", &track(vec!["a1"], Some(1994))).ok().unwrap();
    assert_eq!(a.dql, b.dql);
}

#[test]
fn empty_keys_are_refused() {
    let mut t = track(vec!["a1"], None);
    assert!(matches!(upsert_track("", &t), Err(BuildError::EmptyKey)));
    t.track_ref = String::new();
    assert!(matches!(upsert_track("Home", &t), Err(BuildError::EmptyKey)));
    let mut t = track(vec!["a1", ""], None);
    assert!(matches!(upsert_track("Home", &t), Err(BuildError::EmptyKey)));
    t.artist_ref = vec!["a1".to_string()];
    t.album_ref = Some(String::new());
    assert!(matches!(upsert_track("Home", &t), Err(BuildError::EmptyKey)));
    t.album_ref = None;
    t.file_path = String::new();
    assert!(matches!(upsert_track("Home", &t), Err(BuildError::EmptyKey)));
    assert!(matches!(upsert_library("", "/music"), Err(BuildError::EmptyKey)));
}

#[test]
fn library_upsert_creates_only_when_absent() {
    let dql = upsert_library("Home", "/music").ok().unwrap();
    assert_eq!(
        dql,
        "upsert {\nquery {\nl as var(func: eq(<Library.name>, \"Home\"))\n}\n\
mutation @if(eq(len(l), 0)) {\nset {\n\
uid(l) <dgraph.type> \"Library\" .\n\
uid(l) <Library.name> \"Home\" .\n\
uid(l) <Library.path> \"/music\" .\n\
}\n}\n}\n"
    );
}

#[test]
fn reads_project_the_written_attributes() {
    let lib = library_read_dql("Home");
    assert!(lib.contains("var(func: eq(<Library.name>, \"Home\")) {\n"));
    assert!(lib.contains("duration_seconds: val(sumD)\n"));
    assert!(lib.contains("size_kilobytes: val(sumS)\n"));
    let t = track_read_dql("t1");
    assert!(t.starts_with("{\nq(func: eq(<MusicRecording.mbid>, \"t1\")) {\n"));
    assert!(t.contains("file_size: AudioObject.sizeKilobytes\n"));
}

#[test]
fn one_binding_per_artist_position() {
    let t = track(vec!["A1", "A2", "A3"], None);
    assert_eq!(
        t.artists_vars(),
        "ar0 as var(func: eq(<Artist.mbid>, \"A1\"))\n\
ar1 as var(func: eq(<Artist.mbid>, \"A2\"))\n\
ar2 as var(func: eq(<Artist.mbid>, \"A3\"))\n"
    );
    let (text, degraded) = t.artists_muts();
    assert!(degraded);
    assert_eq!(text.matches("<Artist.names> \"Band\"").count(), 3);
    assert!(text.starts_with("uid(l) <Library.artist> uid(ar0) .\n"));
}
