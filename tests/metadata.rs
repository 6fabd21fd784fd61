use syrinx::metadata::{
    ephemeral_ref, extract_metadata, extract_tags, parse_year, quality_control, quality_control_with,
    tag_field, AudioFile, Field, MetadataError, Probe, Tag, Visual,
};
use syrinx::track::Track;

fn file(ext: Option<&str>) -> AudioFile {
    AudioFile {
        path: "/music/song.mp3".to_string(),
        size_bytes: 4096 * 1024 + 100,
        extension: ext.map(|e| e.to_string()),
    }
}

fn tag(k: &str, v: &str) -> Tag {
    Tag { key: k.to_string(), value: v.to_string() }
}

fn probe(tags: Vec<Tag>) -> Probe {
    Probe { visuals: Vec::new(), tags, duration_seconds: Some(200) }
}

#[test]
fn fresh_track_from_file_facts() {
    let t = Track::new(&file(Some("mp3")));
    assert_eq!(t.title, "_nihil_");
    assert_eq!(t.track_ref, "_nihil_");
    assert_eq!(t.file_size, 4096);
    assert_eq!(t.extension, "mp3");
    assert_eq!(t.mime_type, "audio/mpeg");
    let t = Track::new(&file(None));
    assert_eq!(t.extension, "_nihil_");
    assert_eq!(t.mime_type, "application/octet-stream");
}

#[test]
fn tag_keys_map_to_fields() {
    assert_eq!(tag_field("TIT2"), Some(Field::Title));
    assert_eq!(tag_field("TITLE"), Some(Field::Title));
    assert_eq!(tag_field("TXXX:MusicBrainz Artist Id"), Some(Field::ArtistRef));
    assert_eq!(tag_field("MUSICBRAINZ_RELEASETRACKID"), Some(Field::TrackRef));
    assert_eq!(tag_field("COMMENT"), None);
}

#[test]
fn set_field_by_name() {
    let mut t = Track::new(&file(Some("mp3")));
    assert!(t.set_field("title", "Song".to_string()));
    assert!(t.set_field("artist_id", "a1".to_string()));
    assert!(t.set_field("artist_ref", "a2".to_string()));
    assert!(t.set_field("album_id", "b1".to_string()));
    assert!(t.set_field("original_year", "1994".to_string()));
    assert!(t.set_field("tags", "rock".to_string()));
    assert!(!t.set_field("colour", "red".to_string()));
    assert_eq!(t.title, "Song");
    assert_eq!(t.artist_ref, vec!["a1".to_string(), "a2".to_string()]);
    assert_eq!(t.album_ref, Some("b1".to_string()));
    assert_eq!(t.original_year, Some(1994));
    assert_eq!(t.tags, vec!["rock".to_string()]);
}

#[test]
fn years_parse_as_unsigned_numbers() {
    assert_eq!(parse_year("1994"), Some(1994));
    assert_eq!(parse_year("+7"), Some(7));
    assert_eq!(parse_year("65535"), Some(65535));
    assert_eq!(parse_year("65536"), None);
    assert_eq!(parse_year(""), None);
    assert_eq!(parse_year("+"), None);
    assert_eq!(parse_year("19a4"), None);
    assert_eq!(parse_year("-1"), None);
}

#[test]
fn tags_apply_in_order() {
    let t = extract_tags(
        &file(Some("mp3")),
        &probe(vec![tag("TITLE", "One"), tag("TITLE", "Two"), tag("ARTIST", "Band"), tag("COMMENT", "x")]),
    );
    assert_eq!(t.title, "Two");
    assert_eq!(t.artist, "Band");
    assert_eq!(t.duration_seconds, Some(200));
}

#[test]
fn picture_is_base64_encoded() {
    let mut p = probe(vec![]);
    p.visuals = vec![Visual { media_type: "image/png".to_string(), data: b"hello".to_vec() }];
    let t = extract_tags(&file(Some("mp3")), &p);
    assert_eq!(t.picture, Some("aGVsbG8=".to_string()));
    assert_eq!(t.picture_mime_type, Some("image/png".to_string()));
}

#[test]
fn empty_title_is_poor_metadata() {
    let mut t = Track::new(&file(Some("mp3")));
    t.title = String::new();
    t.artist = "Band".to_string();
    assert!(matches!(quality_control_with(t, "TEMPORARY:x".to_string()), Err(MetadataError::PoorMetadata)));
    let mut t = Track::new(&file(Some("mp3")));
    t.title = "Song".to_string();
    assert!(matches!(quality_control(t), Err(MetadataError::PoorMetadata)));
}

#[test]
fn uncatalogued_track_gets_ephemeral_reference() {
    let mut t = Track::new(&file(Some("mp3")));
    t.title = "Song".to_string();
    t.artist = "Band".to_string();
    let c = quality_control_with(t, "TEMPORARY:abc".to_string()).ok().unwrap();
    assert_eq!(c.track_ref, "TEMPORARY:abc");
    let mut t = Track::new(&file(Some("mp3")));
    t.title = "Song".to_string();
    t.artist = "Band".to_string();
    let c = quality_control(t).ok().unwrap();
    assert!(c.track_ref.starts_with("TEMPORARY:"));
    assert_eq!(c.track_ref.len(), 35);
}

#[test]
fn ephemeral_reference_shape() {
    let r = ephemeral_ref();
    assert!(r.starts_with("TEMPORARY:"));
    assert_eq!(r.len(), 35);
    assert!(r[10..].chars().all(|c| c.is_ascii_alphanumeric()));
}

#[test]
fn catalogued_track_keeps_its_reference() {
    let t = extract_metadata(
        &file(Some("mp3")),
        Ok(Some(probe(vec![tag("TITLE", "Song"), tag("ARTIST", "Band"), tag("MUSICBRAINZ_RELEASETRACKID", "t1")]))),
    )
    .ok()
    .unwrap();
    assert_eq!(t.track_ref, "t1");
}

#[test]
fn extraction_failures() {
    assert!(matches!(extract_metadata(&file(None), Ok(None)), Err(MetadataError::NoExtension)));
    match extract_metadata(&file(Some("mp3")), Err("bad header".to_string())) {
        Err(MetadataError::ProbeFailed(m)) => assert_eq!(m, "bad header"),
        _ => panic!("expected a probe failure"),
    }
    assert!(matches!(extract_metadata(&file(Some("mp3")), Ok(None)), Err(MetadataError::NoMetadata)));
    assert!(matches!(Track::from_file(&file(Some("mp3")), Ok(Some(probe(vec![])))), Err(MetadataError::PoorMetadata)));
}
