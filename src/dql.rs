//! Resolve-then-mutate transactions and read queries, as a model and as text.
//!
//! A transaction binds one variable per entity by exact match on the entity's
//! natural-key predicate, then asserts statements whose subjects and node
//! objects are those variables.
use crate::formatter::{push_literal_statement, push_statement, quoted, statement};
use vstd::prelude::*;

verus! {

pub const TYPE: &'static str = "<dgraph.type>";

pub const LIBRARY_NAME: &'static str = "<Library.name>";

pub const LIBRARY_PATH: &'static str = "<Library.path>";

pub const LIBRARY_TRACK: &'static str = "<Library.track>";

pub const LIBRARY_ARTIST: &'static str = "<Library.artist>";

pub const ARTIST_MBID: &'static str = "<Artist.mbid>";

pub const ARTIST_NAMES: &'static str = "<Artist.names>";

pub const ALBUM_MBID: &'static str = "<Album.mbid>";

pub const ALBUM_TRACK: &'static str = "<MusicAlbum.track>";

pub const TRACK_MBID: &'static str = "<MusicRecording.mbid>";

pub const TRACK_ALBUM: &'static str = "<MusicRecording.inAlbum>";

pub const TRACK_AUDIO: &'static str = "<MusicRecording.audio>";

pub const TRACK_DURATION: &'static str = "<MusicRecording.durationSeconds>";

pub const TRACK_SIZE: &'static str = "<MusicRecording.sizeKilobytes>";

pub const TITLE: &'static str = "<CreativeWork.title>";

pub const DISPLAY_ARTIST: &'static str = "<CreativeWork.artist>";

pub const BY_ARTIST: &'static str = "<CreativeWork.byArtist>";

pub const ORIGINAL_YEAR: &'static str = "<CreativeWork.originalYear>";

pub const AUDIO_SIZE: &'static str = "<AudioObject.sizeKilobytes>";

pub const AUDIO_PATH: &'static str = "<AudioObject.filepath>";

pub const VAR_LIBRARY: &'static str = "l";

pub const VAR_TRACK: &'static str = "t";

pub const VAR_ALBUM: &'static str = "al";

pub const VAR_AUDIO: &'static str = "au";

/// A query variable bound to the node whose `predicate` equals `key`.
pub struct Binding {
    pub var: Seq<char>,
    pub predicate: Seq<char>,
    pub key: Seq<char>,
}

/// The object of a statement: a bound node, or a literal value.
pub enum Object {
    Node(Seq<char>),
    Value(Seq<char>),
}

/// A statement on the node bound to `subject`.
pub struct Nquad {
    pub subject: Seq<char>,
    pub predicate: Seq<char>,
    pub object: Object,
}

pub open spec fn node(var: Seq<char>) -> Seq<char> {
    "uid("@ + var + ")"@
}

pub open spec fn object_text(object: Object) -> Seq<char> {
    match object {
        Object::Node(var) => node(var),
        Object::Value(v) => quoted(v),
    }
}

pub open spec fn nquad_text(q: Nquad) -> Seq<char> {
    statement(node(q.subject), q.predicate, object_text(q.object))
}

pub open spec fn nquads_text(qs: Seq<Nquad>) -> Seq<char>
    decreases qs.len(),
{
    if qs.len() == 0 {
        Seq::empty()
    } else {
        nquads_text(qs.drop_last()) + nquad_text(qs.last())
    }
}

pub open spec fn binding_text(b: Binding) -> Seq<char> {
    b.var + " as var(func: eq("@ + b.predicate + ", "@ + quoted(b.key) + "))\n"@
}

pub open spec fn bindings_text(bs: Seq<Binding>) -> Seq<char>
    decreases bs.len(),
{
    if bs.len() == 0 {
        Seq::empty()
    } else {
        bindings_text(bs.drop_last()) + binding_text(bs.last())
    }
}

/// A whole transaction: the bindings, then the statements, applied only when
/// `condition` (a directive, possibly empty) holds.
pub open spec fn upsert_text(bs: Seq<Binding>, condition: Seq<char>, qs: Seq<Nquad>) -> Seq<char> {
    "upsert {\nquery {\n"@ + bindings_text(bs) + "}\nmutation"@ + condition + " {\nset {\n"@
        + nquads_text(qs) + "}\n}\n}\n"@
}

pub proof fn lemma_nquads_text_add(a: Seq<Nquad>, b: Seq<Nquad>)
    ensures
        nquads_text(a + b) == nquads_text(a) + nquads_text(b),
    decreases b.len(),
{
    if b.len() == 0 {
        assert(a + b =~= a);
    } else {
        lemma_nquads_text_add(a, b.drop_last());
        assert((a + b).drop_last() =~= a + b.drop_last());
    }
}

pub proof fn lemma_bindings_text_add(a: Seq<Binding>, b: Seq<Binding>)
    ensures
        bindings_text(a + b) == bindings_text(a) + bindings_text(b),
    decreases b.len(),
{
    if b.len() == 0 {
        assert(a + b =~= a);
    } else {
        lemma_bindings_text_add(a, b.drop_last());
        assert((a + b).drop_last() =~= a + b.drop_last());
    }
}

pub proof fn lemma_nquads_text_push(a: Seq<Nquad>, q: Nquad)
    ensures
        nquads_text(a.push(q)) == nquads_text(a) + nquad_text(q),
{
    assert(a.push(q).drop_last() =~= a);
}

pub proof fn lemma_bindings_text_push(a: Seq<Binding>, b: Binding)
    ensures
        bindings_text(a.push(b)) == bindings_text(a) + binding_text(b),
{
    assert(a.push(b).drop_last() =~= a);
}

/// `uid(var)`.
pub fn node_ref(var: &str) -> (r: String)
    ensures
        r@ == node(var@),
{
    let mut r = String::from_str("uid(");
    r.append(var);
    r.append(")");
    r
}

/// Appends the statement `uid(subject) predicate uid(object) .`.
pub fn push_node_quad(out: &mut String, subject: &str, predicate: &str, object: &str)
    ensures
        final(out)@ == old(out)@ + nquad_text(
            Nquad { subject: subject@, predicate: predicate@, object: Object::Node(object@) },
        ),
{
    let s = node_ref(subject);
    let o = node_ref(object);
    push_statement(out, s.as_str(), predicate, o.as_str());
}

/// Appends the statement `uid(subject) predicate "value" .`.
pub fn push_value_quad(out: &mut String, subject: &str, predicate: &str, value: &str)
    ensures
        final(out)@ == old(out)@ + nquad_text(
            Nquad { subject: subject@, predicate: predicate@, object: Object::Value(value@) },
        ),
{
    let s = node_ref(subject);
    push_literal_statement(out, s.as_str(), predicate, value);
}

/// Appends `var as var(func: eq(predicate, "key"))`.
pub fn push_binding(out: &mut String, var: &str, predicate: &str, key: &str)
    ensures
        final(out)@ == old(out)@ + binding_text(
            Binding { var: var@, predicate: predicate@, key: key@ },
        ),
{
    out.append(var);
    out.append(" as var(func: eq(");
    out.append(predicate);
    out.append(", ");
    out.append("\"");
    out.append(key);
    out.append("\"");
    out.append("))\n");
}

/// Guards the library mutation so that it only applies when no library of
/// that name exists yet.
pub const CREATE_ONLY: &'static str = " @if(eq(len(l), 0))";

pub open spec fn library_bindings(name: Seq<char>) -> Seq<Binding> {
    seq![Binding { var: VAR_LIBRARY@, predicate: LIBRARY_NAME@, key: name }]
}

pub open spec fn library_nquads(name: Seq<char>, path: Seq<char>) -> Seq<Nquad> {
    seq![
        Nquad { subject: VAR_LIBRARY@, predicate: TYPE@, object: Object::Value("Library"@) },
        Nquad { subject: VAR_LIBRARY@, predicate: LIBRARY_NAME@, object: Object::Value(name) },
        Nquad { subject: VAR_LIBRARY@, predicate: LIBRARY_PATH@, object: Object::Value(path) },
    ]
}

/// The transaction that creates the library `name` rooted at `path`, and
/// leaves an existing library of that name as it is.
pub open spec fn library_upsert(name: Seq<char>, path: Seq<char>) -> Seq<char> {
    upsert_text(library_bindings(name), CREATE_ONLY@, library_nquads(name, path))
}

pub fn library_upsert_dql(name: &str, path: &str) -> (r: String)
    ensures
        r@ == library_upsert(name@, path@),
{
    let mut out = String::from_str("upsert {\nquery {\n");
    push_binding(&mut out, VAR_LIBRARY, LIBRARY_NAME, name);
    out.append("}\nmutation");
    out.append(CREATE_ONLY);
    out.append(" {\nset {\n");
    let ghost before = out@;
    push_value_quad(&mut out, VAR_LIBRARY, TYPE, "Library");
    push_value_quad(&mut out, VAR_LIBRARY, LIBRARY_NAME, name);
    push_value_quad(&mut out, VAR_LIBRARY, LIBRARY_PATH, path);
    out.append("}\n}\n}\n");
    proof {
        let qs = library_nquads(name@, path@);
        lemma_nquads_text_push(qs.take(2), qs[2]);
        lemma_nquads_text_push(qs.take(1), qs[1]);
        lemma_nquads_text_push(qs.take(0), qs[0]);
        assert(qs.take(2).push(qs[2]) =~= qs);
        assert(qs.take(1).push(qs[1]) =~= qs.take(2));
        assert(qs.take(0).push(qs[0]) =~= qs.take(1));
        let bs = library_bindings(name@);
        lemma_bindings_text_push(Seq::empty(), bs[0]);
        assert(Seq::<Binding>::empty().push(bs[0]) =~= bs);
    }
    out
}

/// The read that aggregates duration and size over every track linked to
/// the library `name`, and projects the library with those totals.
pub open spec fn library_read(name: Seq<char>) -> Seq<char> {
    "{\nvar(func: eq(<Library.name>, "@ + quoted(name) + ")) {\n<Library.track> {\n"@
        + "d as MusicRecording.durationSeconds\ns as MusicRecording.sizeKilobytes\n}\n"@
        + "sumS as sum(val(s))\nsumD as sum(val(d))\n}\n"@ + "q(func: eq(<Library.name>, "@
        + quoted(name) + ")) {\n"@ + "name: Library.name\npath: Library.path\n"@
        + "duration_seconds: val(sumD)\nsize_kilobytes: val(sumS)\n}\n}\n"@
}

pub fn library_read_dql(name: &str) -> (r: String)
    ensures
        r@ == library_read(name@),
{
    let mut out = String::from_str("{\nvar(func: eq(<Library.name>, ");
    out.append("\"");
    out.append(name);
    out.append("\"");
    out.append(")) {\n<Library.track> {\n");
    out.append("d as MusicRecording.durationSeconds\ns as MusicRecording.sizeKilobytes\n}\n");
    out.append("sumS as sum(val(s))\nsumD as sum(val(d))\n}\n");
    out.append("q(func: eq(<Library.name>, ");
    out.append("\"");
    out.append(name);
    out.append("\"");
    out.append(")) {\n");
    out.append("name: Library.name\npath: Library.path\n");
    out.append("duration_seconds: val(sumD)\nsize_kilobytes: val(sumS)\n}\n}\n");
    out
}

/// The read of the track `track_ref` that projects what a track upsert
/// writes, with the artist, album and audio file nested under the track.
pub open spec fn track_read(track_ref: Seq<char>) -> Seq<char> {
    "{\nq(func: eq(<MusicRecording.mbid>, "@ + quoted(track_ref) + ")) {\n"@
        + "title: CreativeWork.title\nartist: CreativeWork.artist\n"@
        + "original_year: CreativeWork.originalYear\n"@
        + "duration_seconds: MusicRecording.durationSeconds\n"@
        + "track_ref: MusicRecording.mbid\n"@
        + "artists: CreativeWork.byArtist {\nartist_ref: Artist.mbid\n}\n"@
        + "album: MusicRecording.inAlbum {\nalbum_ref: Album.mbid\ntitle: CreativeWork.title\n}\n"@
        + "audio: MusicRecording.audio {\nfile_path: AudioObject.filepath\n"@
        + "file_size: AudioObject.sizeKilobytes\n}\n}\n}\n"@
}

pub fn track_read_dql(track_ref: &str) -> (r: String)
    ensures
        r@ == track_read(track_ref@),
{
    let mut out = String::from_str("{\nq(func: eq(<MusicRecording.mbid>, ");
    out.append("\"");
    out.append(track_ref);
    out.append("\"");
    out.append(")) {\n");
    out.append("title: CreativeWork.title\nartist: CreativeWork.artist\n");
    out.append("original_year: CreativeWork.originalYear\n");
    out.append("duration_seconds: MusicRecording.durationSeconds\n");
    out.append("track_ref: MusicRecording.mbid\n");
    out.append("artists: CreativeWork.byArtist {\nartist_ref: Artist.mbid\n}\n");
    out.append("album: MusicRecording.inAlbum {\nalbum_ref: Album.mbid\ntitle: CreativeWork.title\n}\n");
    out.append("audio: MusicRecording.audio {\nfile_path: AudioObject.filepath\n");
    out.append("file_size: AudioObject.sizeKilobytes\n}\n}\n}\n");
    out
}

} // verus!
