//! From embedded tags to a track record.
use crate::track::Track;
use vstd::prelude::*;

verus! {

/// The placeholder of a field that no tag has set.
pub const UNSET: &'static str = "_nihil_";

/// The track fields that a tag can set.
#[derive(PartialEq, Eq, Structural, Clone, Copy, Debug)]
pub enum Field {
    Title,
    Artist,
    ArtistRef,
    OriginalYear,
    Album,
    AlbumRef,
    Tags,
    TrackRef,
    Picture,
}

/// The field a recognised ID3v2 or Vorbis comment tag sets.
pub open spec fn tag_field_of(key: Seq<char>) -> Option<Field> {
    if key == "APIC"@ || key == "METADATA_BLOCK_PICTURE"@ {
        Some(Field::Picture)
    } else if key == "TIT2"@ || key == "TITLE"@ {
        Some(Field::Title)
    } else if key == "TPE1"@ || key == "ARTIST"@ {
        Some(Field::Artist)
    } else if key == "TALB"@ || key == "ALBUM"@ {
        Some(Field::Album)
    } else if key == "TORY"@ || key == "ORIGINALYEAR"@ {
        Some(Field::OriginalYear)
    } else if key == "TXXX:MusicBrainz Album Id"@ || key == "MUSICBRAINZ_ALBUMID"@ {
        Some(Field::AlbumRef)
    } else if key == "TXXX:MusicBrainz Artist Id"@ || key == "MUSICBRAINZ_ARTISTID"@ {
        Some(Field::ArtistRef)
    } else if key == "TXXX:MusicBrainz Release Track Id"@ || key == "MUSICBRAINZ_RELEASETRACKID"@ {
        Some(Field::TrackRef)
    } else {
        None
    }
}

/// The field a field name designates.
pub open spec fn field_of_name(name: Seq<char>) -> Option<Field> {
    if name == "title"@ {
        Some(Field::Title)
    } else if name == "artist"@ {
        Some(Field::Artist)
    } else if name == "artist_id"@ || name == "artist_ref"@ {
        Some(Field::ArtistRef)
    } else if name == "original_year"@ {
        Some(Field::OriginalYear)
    } else if name == "album"@ {
        Some(Field::Album)
    } else if name == "album_id"@ || name == "album_ref"@ {
        Some(Field::AlbumRef)
    } else if name == "tags"@ {
        Some(Field::Tags)
    } else if name == "track_id"@ {
        Some(Field::TrackRef)
    } else if name == "picture"@ {
        Some(Field::Picture)
    } else {
        None
    }
}

/// The field a recognised tag key sets; other keys set nothing.
pub fn tag_field(key: &str) -> (r: Option<Field>)
    ensures
        r == tag_field_of(key@),
{
    let k = key.to_owned();
    if k == "APIC".to_owned() || k == "METADATA_BLOCK_PICTURE".to_owned() {
        Some(Field::Picture)
    } else if k == "TIT2".to_owned() || k == "TITLE".to_owned() {
        Some(Field::Title)
    } else if k == "TPE1".to_owned() || k == "ARTIST".to_owned() {
        Some(Field::Artist)
    } else if k == "TALB".to_owned() || k == "ALBUM".to_owned() {
        Some(Field::Album)
    } else if k == "TORY".to_owned() || k == "ORIGINALYEAR".to_owned() {
        Some(Field::OriginalYear)
    } else if k == "TXXX:MusicBrainz Album Id".to_owned() || k == "MUSICBRAINZ_ALBUMID".to_owned() {
        Some(Field::AlbumRef)
    } else if k == "TXXX:MusicBrainz Artist Id".to_owned() || k == "MUSICBRAINZ_ARTISTID".to_owned() {
        Some(Field::ArtistRef)
    } else if k == "TXXX:MusicBrainz Release Track Id".to_owned() || k
        == "MUSICBRAINZ_RELEASETRACKID".to_owned() {
        Some(Field::TrackRef)
    } else {
        None
    }
}

/// The field a field name designates.
pub fn field_named(name: &str) -> (r: Option<Field>)
    ensures
        r == field_of_name(name@),
{
    let n = name.to_owned();
    if n == "title".to_owned() {
        Some(Field::Title)
    } else if n == "artist".to_owned() {
        Some(Field::Artist)
    } else if n == "artist_id".to_owned() || n == "artist_ref".to_owned() {
        Some(Field::ArtistRef)
    } else if n == "original_year".to_owned() {
        Some(Field::OriginalYear)
    } else if n == "album".to_owned() {
        Some(Field::Album)
    } else if n == "album_id".to_owned() || n == "album_ref".to_owned() {
        Some(Field::AlbumRef)
    } else if n == "tags".to_owned() {
        Some(Field::Tags)
    } else if n == "track_id".to_owned() {
        Some(Field::TrackRef)
    } else if n == "picture".to_owned() {
        Some(Field::Picture)
    } else {
        None
    }
}

pub open spec fn is_digit(c: char) -> bool {
    '0' <= c <= '9'
}

/// The value of a string of decimal digits.
pub open spec fn digits_value(d: Seq<char>) -> nat
    decreases d.len(),
{
    if d.len() == 0 {
        0
    } else {
        digits_value(d.drop_last()) * 10 + ((d.last() as u32) - 48) as nat
    }
}

/// The digits of an unsigned number: an optional leading `+` is dropped.
pub open spec fn unsigned_digits(s: Seq<char>) -> Seq<char> {
    if s.len() > 0 && s[0] == '+' {
        s.drop_first()
    } else {
        s
    }
}

/// A 16-bit unsigned number in decimal, with an optional leading `+`;
/// anything else, or a value that does not fit, is no number.
pub open spec fn parse_u16(s: Seq<char>) -> Option<u16> {
    let d = unsigned_digits(s);
    if d.len() > 0 && (forall|i: int| 0 <= i < d.len() ==> is_digit(#[trigger] d[i]))
        && digits_value(d) <= 65535 {
        Some(digits_value(d) as u16)
    } else {
        None
    }
}

proof fn lemma_digits_prefix(d: Seq<char>, k: int)
    requires
        0 <= k <= d.len(),
        forall|i: int| 0 <= i < d.len() ==> is_digit(#[trigger] d[i]),
    ensures
        digits_value(d.take(k)) <= digits_value(d),
    decreases d.len(),
{
    if k < d.len() {
        assert(d.drop_last().take(k) =~= d.take(k));
        lemma_digits_prefix(d.drop_last(), k);
    } else {
        assert(d.take(k) =~= d);
    }
}

/// A year as a tag writes it.
pub fn parse_year(s: &str) -> (r: Option<u16>)
    ensures
        r == parse_u16(s@),
{
    let n = s.unicode_len();
    let mut start: usize = 0;
    if n > 0 && s.get_char(0) == '+' {
        start = 1;
    }
    let ghost d = unsigned_digits(s@);
    assert(d =~= s@.subrange(start as int, n as int));
    if start >= n {
        return None;
    }
    let mut i: usize = start;
    let mut value: u32 = 0;
    while i < n
        invariant
            start <= i <= n,
            n == s@.len(),
            d == s@.subrange(start as int, n as int),
            d == unsigned_digits(s@),
            forall|j: int| 0 <= j < i - start ==> is_digit(#[trigger] d[j]),
            value == digits_value(d.take(i - start)),
            value <= 65535,
        decreases n - i,
    {
        let c = s.get_char(i);
        assert(d[i - start] == c);
        if !('0' <= c && c <= '9') {
            assert(!is_digit(d[i - start]));
            return None;
        }
        assert(d.take(i - start + 1).drop_last() =~= d.take(i - start));
        assert(d.take(i - start + 1).last() == c);
        let v = value * 10 + (c as u32 - 48);
        assert(digits_value(d.take(i - start + 1)) == v);
        if v > 65535 {
            proof {
                if forall|j: int| 0 <= j < d.len() ==> is_digit(#[trigger] d[j]) {
                    lemma_digits_prefix(d, i - start + 1);
                }
            }
            return None;
        }
        value = v;
        i = i + 1;
    }
    assert(d.take(n - start) =~= d);
    Some(value as u16)
}

/// Two tracks agree on every field but `f`.
pub open spec fn same_except(a: Track, b: Track, f: Option<Field>) -> bool {
    &&& (f != Some(Field::Title) ==> b.title == a.title)
    &&& (f != Some(Field::Artist) ==> b.artist == a.artist)
    &&& (f != Some(Field::ArtistRef) ==> b.artist_ref == a.artist_ref)
    &&& (f != Some(Field::OriginalYear) ==> b.original_year == a.original_year)
    &&& (f != Some(Field::Album) ==> b.album == a.album)
    &&& (f != Some(Field::AlbumRef) ==> b.album_ref == a.album_ref)
    &&& (f != Some(Field::Tags) ==> b.tags == a.tags)
    &&& (f != Some(Field::TrackRef) ==> b.track_ref == a.track_ref)
    &&& (f != Some(Field::Picture) ==> b.picture == a.picture)
    &&& b.duration_seconds == a.duration_seconds
    &&& b.file_path == a.file_path
    &&& b.file_size == a.file_size
    &&& b.extension == a.extension
    &&& b.mime_type == a.mime_type
    &&& b.picture_mime_type == a.picture_mime_type
}

/// What setting `f` to `value` does to the field itself.
pub open spec fn field_set(a: Track, b: Track, f: Field, value: String) -> bool {
    match f {
        Field::Title => b.title == value,
        Field::Artist => b.artist == value,
        Field::ArtistRef => b.artist_ref@ == a.artist_ref@.push(value),
        Field::OriginalYear => b.original_year == parse_u16(value@),
        Field::Album => b.album == Some(value),
        Field::AlbumRef => b.album_ref == Some(value),
        Field::Tags => b.tags@ == a.tags@.push(value),
        Field::TrackRef => b.track_ref == value,
        Field::Picture => b.picture == Some(value),
    }
}

impl Track {
    /// Sets one field from a tag value: a list field gains the value, a year
    /// is parsed (no year when it does not parse), any other field takes it.
    pub fn set(&mut self, f: Field, value: String)
        ensures
            same_except(*old(self), *final(self), Some(f)),
            field_set(*old(self), *final(self), f, value),
    {
        match f {
            Field::Title => self.title = value,
            Field::Artist => self.artist = value,
            Field::ArtistRef => self.artist_ref.push(value),
            Field::OriginalYear => self.original_year = parse_year(value.as_str()),
            Field::Album => self.album = Some(value),
            Field::AlbumRef => self.album_ref = Some(value),
            Field::Tags => self.tags.push(value),
            Field::TrackRef => self.track_ref = value,
            Field::Picture => self.picture = Some(value),
        }
    }

    /// Sets the field named `field`; an unknown name changes nothing and
    /// gives `false`.
    pub fn set_field(&mut self, field: &str, value: String) -> (r: bool)
        ensures
            r == (field_of_name(field@) is Some),
            same_except(*old(self), *final(self), field_of_name(field@)),
            field_of_name(field@) matches Some(f) ==> field_set(*old(self), *final(self), f, value),
    {
        match field_named(field) {
            Some(f) => {
                self.set(f, value);
                true
            },
            None => false,
        }
    }
}

/// Facts about an audio file gathered before its tags are read.
pub struct AudioFile {
    /// Canonical absolute path.
    pub path: String,
    /// Size in bytes.
    pub size_bytes: u64,
    /// File name extension, if the name has one.
    pub extension: Option<String>,
}

/// An embedded picture.
pub struct Visual {
    pub media_type: String,
    pub data: Vec<u8>,
}

/// An embedded tag.
pub struct Tag {
    pub key: String,
    pub value: String,
}

/// The current metadata revision that probing the file found.
pub struct Probe {
    pub visuals: Vec<Visual>,
    pub tags: Vec<Tag>,
    /// Playback duration in whole seconds, when the container tells it.
    pub duration_seconds: Option<u32>,
}

/// Why a file yields no track.
pub enum MetadataError {
    /// The file name has no extension.
    NoExtension,
    /// The container could not be probed.
    ProbeFailed(String),
    /// The container holds no metadata.
    NoMetadata,
    /// Title or artist is missing or empty.
    PoorMetadata,
}

/// The media type registered first for a file name extension, or
/// `application/octet-stream` when none is.
pub uninterp spec fn mime_for_extension(ext: Seq<char>) -> Seq<char>;

/// Relies on `new_mime_guess::from_ext` and `MimeGuess::first_or_octet_stream`:
/// the first media type the crate's table lists for the extension, the
/// octet-stream type when it lists none.
#[verifier::external_body]
fn guess_mime(ext: &str) -> (r: String)
    ensures
        r@ == mime_for_extension(ext@),
{
    new_mime_guess::from_ext(ext).first_or_octet_stream().to_string()
}

/// The padded standard base64 encoding of some bytes.
pub uninterp spec fn base64_of(data: Seq<u8>) -> Seq<char>;

/// Relies on `base64::encode`: the standard alphabet with padding. It
/// computes the encoded length with checked arithmetic, which cannot
/// overflow for the length of an allocated vector.
#[verifier::external_body]
#[allow(deprecated)]
fn encode_base64(data: &Vec<u8>) -> (r: String)
    ensures
        r@ == base64_of(data@),
{
    base64::encode(data)
}

pub open spec fn is_ascii_alphanumeric(c: char) -> bool {
    ('A' <= c <= 'Z') || ('a' <= c <= 'z') || ('0' <= c <= '9')
}

/// Relies on `fastrand::alphanumeric`: a random character among `A-Z`,
/// `a-z` and `0-9`, here as a one-character string.
#[verifier::external_body]
fn random_alphanumeric() -> (r: String)
    ensures
        r@.len() == 1,
        is_ascii_alphanumeric(r@[0]),
{
    fastrand::alphanumeric().to_string()
}

/// The prefix of a synthesised recording reference.
pub const EPHEMERAL_PREFIX: &'static str = "TEMPORARY:";

/// The number of random characters after that prefix.
pub const EPHEMERAL_LEN: usize = 25;

/// A synthesised recording reference: the prefix, then random
/// alphanumeric characters.
pub open spec fn is_ephemeral_ref(r: Seq<char>) -> bool {
    &&& r.len() == EPHEMERAL_PREFIX@.len() + EPHEMERAL_LEN
    &&& r.take(EPHEMERAL_PREFIX@.len() as int) == EPHEMERAL_PREFIX@
    &&& forall|i: int| EPHEMERAL_PREFIX@.len() <= i < r.len() ==> is_ascii_alphanumeric(#[trigger] r[i])
}

/// A new synthesised recording reference for an uncatalogued track.
pub fn ephemeral_ref() -> (r: String)
    ensures
        is_ephemeral_ref(r@),
{
    let mut out = String::from_str(EPHEMERAL_PREFIX);
    let mut k: usize = 0;
    while k < EPHEMERAL_LEN
        invariant
            k <= EPHEMERAL_LEN,
            out@.len() == EPHEMERAL_PREFIX@.len() + k,
            out@.take(EPHEMERAL_PREFIX@.len() as int) == EPHEMERAL_PREFIX@,
            forall|i: int|
                EPHEMERAL_PREFIX@.len() <= i < out@.len() ==> is_ascii_alphanumeric(#[trigger] out@[i]),
        decreases EPHEMERAL_LEN - k,
    {
        let c = random_alphanumeric();
        let ghost before = out@;
        out.append(c.as_str());
        assert(out@.take(EPHEMERAL_PREFIX@.len() as int) =~= before.take(
            EPHEMERAL_PREFIX@.len() as int,
        ));
        assert forall|i: int| EPHEMERAL_PREFIX@.len() <= i < out@.len() implies is_ascii_alphanumeric(
            #[trigger] out@[i],
        ) by {
            if i < before.len() {
                assert(out@[i] == before[i]);
            } else {
                assert(out@[i] == c@[0]);
            }
        }
        k = k + 1;
    }
    out
}

/// The extension recorded for a file: its own, or the placeholder.
pub open spec fn extension_of(file: AudioFile) -> Seq<char> {
    match file.extension {
        Some(e) => e@,
        None => UNSET@,
    }
}

/// A track that no tag has touched yet.
pub open spec fn is_fresh(t: Track, file: AudioFile) -> bool {
    &&& t.title@ == UNSET@
    &&& t.artist@ == UNSET@
    &&& t.artist_ref@.len() == 0
    &&& t.original_year is None
    &&& t.album is None
    &&& t.album_ref is None
    &&& t.tags@.len() == 0
    &&& t.track_ref@ == UNSET@
    &&& t.duration_seconds is None
    &&& t.file_path == file.path
    &&& t.file_size == file.size_bytes / 1024
    &&& t.extension@ == extension_of(file)
    &&& t.mime_type@ == mime_for_extension(extension_of(file))
    &&& t.picture_mime_type is None
    &&& t.picture is None
}

/// The values of the tags that set `f`, in order.
pub open spec fn values_for(tags: Seq<Tag>, f: Field) -> Seq<String>
    decreases tags.len(),
{
    if tags.len() == 0 {
        Seq::empty()
    } else if tag_field_of(tags.last().key@) == Some(f) {
        values_for(tags.drop_last(), f).push(tags.last().value)
    } else {
        values_for(tags.drop_last(), f)
    }
}

/// The value the last tag that sets `f` carries.
pub open spec fn last_for(tags: Seq<Tag>, f: Field) -> Option<String> {
    let v = values_for(tags, f);
    if v.len() == 0 {
        None
    } else {
        Some(v.last())
    }
}

pub open spec fn text_or(v: Option<String>, default: String) -> String {
    match v {
        Some(x) => x,
        None => default,
    }
}

pub open spec fn some_or(v: Option<String>, default: Option<String>) -> Option<String> {
    match v {
        Some(x) => Some(x),
        None => default,
    }
}

/// `t` is `base` with `tags` applied in order: the last tag of a field wins,
/// list fields gather every value.
pub open spec fn tags_applied(base: Track, tags: Seq<Tag>, t: Track) -> bool {
    &&& t.title == text_or(last_for(tags, Field::Title), base.title)
    &&& t.artist == text_or(last_for(tags, Field::Artist), base.artist)
    &&& t.artist_ref@ == base.artist_ref@ + values_for(tags, Field::ArtistRef)
    &&& t.original_year == (match last_for(tags, Field::OriginalYear) {
        Some(v) => parse_u16(v@),
        None => base.original_year,
    })
    &&& t.album == some_or(last_for(tags, Field::Album), base.album)
    &&& t.album_ref == some_or(last_for(tags, Field::AlbumRef), base.album_ref)
    &&& t.tags@ == base.tags@ + values_for(tags, Field::Tags)
    &&& t.track_ref == text_or(last_for(tags, Field::TrackRef), base.track_ref)
    &&& t.picture == some_or(last_for(tags, Field::Picture), base.picture)
    &&& t.duration_seconds == base.duration_seconds
    &&& t.file_path == base.file_path
    &&& t.file_size == base.file_size
    &&& t.extension == base.extension
    &&& t.mime_type == base.mime_type
    &&& t.picture_mime_type == base.picture_mime_type
}

/// `t` is `base` with the last of `visuals` as its picture.
pub open spec fn visuals_applied(base: Track, visuals: Seq<Visual>, t: Track) -> bool {
    &&& t.title == base.title
    &&& t.artist == base.artist
    &&& t.artist_ref == base.artist_ref
    &&& t.original_year == base.original_year
    &&& t.album == base.album
    &&& t.album_ref == base.album_ref
    &&& t.tags == base.tags
    &&& t.track_ref == base.track_ref
    &&& t.duration_seconds == base.duration_seconds
    &&& t.file_path == base.file_path
    &&& t.file_size == base.file_size
    &&& t.extension == base.extension
    &&& t.mime_type == base.mime_type
    &&& if visuals.len() == 0 {
        t.picture == base.picture && t.picture_mime_type == base.picture_mime_type
    } else {
        &&& t.picture matches Some(p) && p@ == base64_of(visuals.last().data@)
        &&& t.picture_mime_type == Some(visuals.last().media_type)
    }
}

/// The track a probe of `file` describes, before the quality gate.
pub open spec fn extracted(file: AudioFile, probe: Probe, t: Track) -> bool {
    exists|fresh: Track, pictured: Track, tagged: Track|
        is_fresh(fresh, file) && visuals_applied(fresh, probe.visuals@, pictured) && tags_applied(
            pictured,
            probe.tags@,
            tagged,
        ) && t == (Track { duration_seconds: probe.duration_seconds, ..tagged })
}

/// Title or artist is missing or empty.
pub open spec fn poor_metadata(t: Track) -> bool {
    t.artist@ == UNSET@ || t.artist@.len() == 0 || t.title@ == UNSET@ || t.title@.len() == 0
}

/// No tag gave a recording reference.
pub open spec fn uncatalogued(t: Track) -> bool {
    t.track_ref@ == UNSET@ || t.track_ref@.len() == 0
}

/// The quality gate, with `fallback` as the reference of an uncatalogued track.
pub open spec fn checked(t: Track, fallback: String) -> Result<Track, MetadataError> {
    if poor_metadata(t) {
        Err(MetadataError::PoorMetadata)
    } else if uncatalogued(t) {
        Ok(Track { track_ref: fallback, ..t })
    } else {
        Ok(t)
    }
}

impl Track {
    /// A track for `file` that no tag has touched yet.
    pub fn new(file: &AudioFile) -> (r: Track)
        ensures
            is_fresh(r, *file),
    {
        let extension = match &file.extension {
            Some(e) => e.clone(),
            None => String::from_str(UNSET),
        };
        let mime_type = guess_mime(extension.as_str());
        Track {
            title: String::from_str(UNSET),
            artist: String::from_str(UNSET),
            artist_ref: Vec::new(),
            original_year: None,
            album: None,
            album_ref: None,
            tags: Vec::new(),
            track_ref: String::from_str(UNSET),
            duration_seconds: None,
            file_path: file.path.clone(),
            file_size: file.size_bytes / 1024,
            extension,
            mime_type,
            picture_mime_type: None,
            picture: None,
        }
    }

    /// Takes each embedded picture in turn; the last one stays.
    pub fn apply_visuals(&mut self, visuals: &Vec<Visual>)
        ensures
            visuals_applied(*old(self), visuals@, *final(self)),
    {
        let ghost base = *self;
        let mut i: usize = 0;
        while i < visuals.len()
            invariant
                i <= visuals.len(),
                visuals_applied(base, visuals@.take(i as int), *self),
            decreases visuals.len() - i,
        {
            self.picture_mime_type = Some(visuals[i].media_type.clone());
            self.picture = Some(encode_base64(&visuals[i].data));
            assert(visuals@.take(i + 1).last() == visuals@[i as int]);
            i = i + 1;
        }
        assert(visuals@.take(visuals.len() as int) =~= visuals@);
    }

    /// Applies each recognised tag in order; other tags are left aside.
    pub fn apply_tags(&mut self, tags: &Vec<Tag>)
        ensures
            tags_applied(*old(self), tags@, *final(self)),
    {
        let ghost base = *self;
        let mut i: usize = 0;
        while i < tags.len()
            invariant
                i <= tags.len(),
                tags_applied(base, tags@.take(i as int), *self),
            decreases tags.len() - i,
        {
            assert(tags@.take(i + 1).drop_last() =~= tags@.take(i as int));
            assert(tags@.take(i + 1).last() == tags@[i as int]);
            match tag_field(tags[i].key.as_str()) {
                Some(f) => {
                    self.set(f, tags[i].value.clone());
                },
                None => {},
            }
            proof {
                let t = tags@.take(i + 1);
                assert(values_for(t, Field::ArtistRef) == values_for(t.drop_last(), Field::ArtistRef)
                    || values_for(t, Field::ArtistRef) == values_for(
                    t.drop_last(),
                    Field::ArtistRef,
                ).push(t.last().value));
                assert(base.artist_ref@ + values_for(t, Field::ArtistRef) =~= self.artist_ref@);
                assert(base.tags@ + values_for(t, Field::Tags) =~= self.tags@);
            }
            i = i + 1;
        }
        assert(tags@.take(tags.len() as int) =~= tags@);
    }
}

/// The track that a probe of `file` describes, before the quality gate.
pub fn extract_tags(file: &AudioFile, probe: &Probe) -> (r: Track)
    ensures
        extracted(*file, *probe, r),
{
    let mut out = Track::new(file);
    let ghost fresh = out;
    out.apply_visuals(&probe.visuals);
    let ghost pictured = out;
    out.apply_tags(&probe.tags);
    let ghost tagged = out;
    out.duration_seconds = probe.duration_seconds;
    assert(is_fresh(fresh, *file) && visuals_applied(fresh, probe.visuals@, pictured) && tags_applied(
        pictured,
        probe.tags@,
        tagged,
    ) && out == (Track { duration_seconds: probe.duration_seconds, ..tagged }));
    out
}

/// The quality gate: a track without title or artist is refused; an
/// uncatalogued one gets `fallback_ref` as its recording reference.
pub fn quality_control_with(track: Track, fallback_ref: String) -> (r: Result<Track, MetadataError>)
    ensures
        r == checked(track, fallback_ref),
{
    if text_is(&track.artist, UNSET) || track.artist.unicode_len() == 0 || text_is(
        &track.title,
        UNSET,
    ) || track.title.unicode_len() == 0 {
        return Err(MetadataError::PoorMetadata);
    }
    if text_is(&track.track_ref, UNSET) || track.track_ref.unicode_len() == 0 {
        let mut track = track;
        track.track_ref = fallback_ref;
        return Ok(track);
    }
    Ok(track)
}

fn text_is(s: &String, lit: &str) -> (r: bool)
    ensures
        r == (s@ == lit@),
{
    s.clone() == lit.to_owned()
}

/// The quality gate, synthesising a reference for an uncatalogued track.
pub fn quality_control(track: Track) -> (r: Result<Track, MetadataError>)
    ensures
        exists|fallback: String| is_ephemeral_ref(fallback@) && r == checked(track, fallback),
{
    let fallback = ephemeral_ref();
    quality_control_with(track, fallback)
}

/// What a file yields: refused without an extension, when probing failed
/// or found no metadata, and by the quality gate.
pub open spec fn yields(
    file: AudioFile,
    probed: Result<Option<Probe>, String>,
    r: Result<Track, MetadataError>,
) -> bool {
    if file.extension is None {
        r matches Err(MetadataError::NoExtension)
    } else {
        match probed {
            Err(m) => r matches Err(MetadataError::ProbeFailed(x)) && x == m,
            Ok(None) => r matches Err(MetadataError::NoMetadata),
            Ok(Some(p)) => exists|t: Track, fallback: String|
                extracted(file, p, t) && is_ephemeral_ref(fallback@) && r == checked(t, fallback),
        }
    }
}

/// The track a file yields, given what probing it found.
pub fn extract_metadata(file: &AudioFile, probed: Result<Option<Probe>, String>) -> (r: Result<
    Track,
    MetadataError,
>)
    ensures
        yields(*file, probed, r),
{
    if file.extension.is_none() {
        return Err(MetadataError::NoExtension);
    }
    match probed {
        Err(m) => Err(MetadataError::ProbeFailed(m)),
        Ok(None) => Err(MetadataError::NoMetadata),
        Ok(Some(p)) => {
            let t = extract_tags(file, &p);
            quality_control(t)
        },
    }
}

} // verus!
