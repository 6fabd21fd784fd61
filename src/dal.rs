//! The track and library upsert transactions.
use crate::dql::{
    bindings_text, lemma_bindings_text_push, lemma_nquads_text_add, lemma_nquads_text_push,
    library_upsert, library_upsert_dql, lemma_bindings_text_add, node, node_ref, nquad_text,
    nquads_text, push_binding, push_node_quad, push_value_quad, upsert_text, Binding,
    Nquad, Object, ALBUM_MBID, ALBUM_TRACK, ARTIST_MBID, ARTIST_NAMES, AUDIO_PATH, AUDIO_SIZE,
    BY_ARTIST, DISPLAY_ARTIST, LIBRARY_ARTIST, LIBRARY_NAME, LIBRARY_TRACK, ORIGINAL_YEAR, TITLE,
    TRACK_ALBUM, TRACK_AUDIO, TRACK_DURATION, TRACK_MBID, TRACK_SIZE, TYPE, VAR_ALBUM, VAR_AUDIO,
    VAR_LIBRARY, VAR_TRACK,
};
use crate::formatter::{decimal, decimal_string, is_empty_text, quoted, statement, RDFable};
use crate::track::Track;
use vstd::prelude::*;

verus! {

/// Why a transaction could not be built.
#[derive(PartialEq, Eq, Structural, Debug, Clone, Copy)]
pub enum BuildError {
    /// A natural key is the empty string.
    EmptyKey,
}

/// A track upsert ready to submit.
pub struct TrackUpsert {
    /// The whole transaction text.
    pub dql: String,
    /// Several artist references but one display name: that name was
    /// repeated for every artist.
    pub degraded: bool,
}

pub open spec fn views(v: Seq<String>) -> Seq<Seq<char>> {
    v.map_values(|s: String| s@)
}

/// The variable bound to the artist at position `i`.
pub open spec fn artist_var(i: nat) -> Seq<char> {
    "ar"@ + decimal(i)
}

pub open spec fn artist_bindings(refs: Seq<Seq<char>>) -> Seq<Binding>
    decreases refs.len(),
{
    if refs.len() == 0 {
        Seq::empty()
    } else {
        artist_bindings(refs.drop_last()).push(
            Binding {
                var: artist_var((refs.len() - 1) as nat),
                predicate: ARTIST_MBID@,
                key: refs.last(),
            },
        )
    }
}

/// The statements for the artist at position `i`: its link to the library
/// and to the track, its type, key and name.
pub open spec fn artist_link(i: nat, reference: Seq<char>, name: Seq<char>) -> Seq<Nquad> {
    seq![
        Nquad { subject: VAR_LIBRARY@, predicate: LIBRARY_ARTIST@, object: Object::Node(artist_var(i)) },
        Nquad { subject: artist_var(i), predicate: TYPE@, object: Object::Value("Artist"@) },
        Nquad { subject: artist_var(i), predicate: ARTIST_MBID@, object: Object::Value(reference) },
        Nquad { subject: artist_var(i), predicate: ARTIST_NAMES@, object: Object::Value(name) },
        Nquad { subject: VAR_TRACK@, predicate: BY_ARTIST@, object: Object::Node(artist_var(i)) },
    ]
}

/// Every artist position gets its own statements, all naming `name`.
pub open spec fn artist_nquads(refs: Seq<Seq<char>>, name: Seq<char>) -> Seq<Nquad>
    decreases refs.len(),
{
    if refs.len() == 0 {
        Seq::empty()
    } else {
        artist_nquads(refs.drop_last(), name) + artist_link(
            (refs.len() - 1) as nat,
            refs.last(),
            name,
        )
    }
}

pub open spec fn value_quad(subject: Seq<char>, predicate: Seq<char>, value: Seq<char>) -> Nquad {
    Nquad { subject, predicate, object: Object::Value(value) }
}

pub open spec fn node_quad(subject: Seq<char>, predicate: Seq<char>, object: Seq<char>) -> Nquad {
    Nquad { subject, predicate, object: Object::Node(object) }
}

/// One statement when the value is present, none when it is absent.
pub open spec fn optional_quad(subject: Seq<char>, predicate: Seq<char>, value: Option<Seq<char>>) -> Seq<Nquad> {
    match value {
        Some(v) => seq![value_quad(subject, predicate, v)],
        None => Seq::empty(),
    }
}

pub open spec fn number_view(n: Option<u32>) -> Option<Seq<char>> {
    match n {
        Some(v) => Some(decimal(v as nat)),
        None => None,
    }
}

pub open spec fn year_view(n: Option<u16>) -> Option<Seq<char>> {
    match n {
        Some(v) => Some(decimal(v as nat)),
        None => None,
    }
}

pub open spec fn text_view(s: Option<String>) -> Option<Seq<char>> {
    match s {
        Some(v) => Some(v@),
        None => None,
    }
}

pub open spec fn library_link(lib: Seq<char>) -> Seq<Nquad> {
    seq![
        value_quad(VAR_LIBRARY@, TYPE@, "Library"@),
        value_quad(VAR_LIBRARY@, LIBRARY_NAME@, lib),
        node_quad(VAR_LIBRARY@, LIBRARY_TRACK@, VAR_TRACK@),
    ]
}

pub open spec fn album_bindings(t: Track) -> Seq<Binding> {
    match t.album_ref {
        Some(r) => seq![Binding { var: VAR_ALBUM@, predicate: ALBUM_MBID@, key: r@ }],
        None => Seq::empty(),
    }
}

/// The album's statements, present only when the track has an album reference.
pub open spec fn album_nquads(t: Track) -> Seq<Nquad> {
    match t.album_ref {
        Some(r) => seq![
            value_quad(VAR_ALBUM@, TYPE@, "MusicAlbum"@),
            value_quad(VAR_ALBUM@, ALBUM_MBID@, r@),
            node_quad(VAR_ALBUM@, ALBUM_TRACK@, VAR_TRACK@),
        ] + optional_quad(VAR_ALBUM@, TITLE@, text_view(t.album)) + seq![
            node_quad(VAR_TRACK@, TRACK_ALBUM@, VAR_ALBUM@),
        ],
        None => Seq::empty(),
    }
}

/// The recording's own statements.
pub open spec fn recording_nquads(t: Track) -> Seq<Nquad> {
    seq![
        value_quad(VAR_TRACK@, TYPE@, "MusicRecording"@),
        value_quad(VAR_TRACK@, TRACK_MBID@, t.track_ref@),
        value_quad(VAR_TRACK@, TITLE@, t.title@),
        value_quad(VAR_TRACK@, DISPLAY_ARTIST@, t.artist@),
        node_quad(VAR_TRACK@, TRACK_AUDIO@, VAR_AUDIO@),
    ] + optional_quad(VAR_TRACK@, TRACK_DURATION@, number_view(t.duration_seconds))
        + optional_quad(VAR_TRACK@, ORIGINAL_YEAR@, year_view(t.original_year)) + seq![
        value_quad(VAR_TRACK@, TRACK_SIZE@, decimal(t.file_size as nat)),
    ]
}

/// The audio file's statements.
pub open spec fn audio_nquads(t: Track) -> Seq<Nquad> {
    seq![
        value_quad(VAR_AUDIO@, TYPE@, "AudioObject"@),
        value_quad(VAR_AUDIO@, AUDIO_SIZE@, decimal(t.file_size as nat)),
        value_quad(VAR_AUDIO@, AUDIO_PATH@, t.file_path@),
    ]
}

pub open spec fn track_bindings(lib: Seq<char>, t: Track) -> Seq<Binding> {
    seq![Binding { var: VAR_LIBRARY@, predicate: LIBRARY_NAME@, key: lib }] + artist_bindings(
        views(t.artist_ref@),
    ) + album_bindings(t) + seq![
        Binding { var: VAR_AUDIO@, predicate: AUDIO_PATH@, key: t.file_path@ },
        Binding { var: VAR_TRACK@, predicate: TRACK_MBID@, key: t.track_ref@ },
    ]
}

pub open spec fn track_nquads(lib: Seq<char>, t: Track) -> Seq<Nquad> {
    library_link(lib) + artist_nquads(views(t.artist_ref@), t.artist@) + album_nquads(t)
        + recording_nquads(t) + audio_nquads(t)
}

/// The transaction that resolves and links the library, the artists, the
/// album, the audio file and the track of `t`.
pub open spec fn track_upsert(lib: Seq<char>, t: Track) -> Seq<char> {
    upsert_text(track_bindings(lib, t), Seq::empty(), track_nquads(lib, t))
}

/// Every natural key the track transaction binds is non-empty.
pub open spec fn track_keys_valid(lib: Seq<char>, t: Track) -> bool {
    &&& lib.len() > 0
    &&& t.track_ref@.len() > 0
    &&& t.file_path@.len() > 0
    &&& forall|i: int| 0 <= i < t.artist_ref@.len() ==> #[trigger] t.artist_ref@[i]@.len() > 0
    &&& (t.album_ref matches Some(r) ==> r@.len() > 0)
}

fn artist_var_name(i: usize) -> (r: String)
    ensures
        r@ == artist_var(i as nat),
{
    let mut r = String::from_str("ar");
    let n = decimal_string(i as u64);
    r.append(n.as_str());
    r
}

proof fn lemma_single_quad(q: Nquad)
    ensures
        nquads_text(seq![q]) == nquad_text(q),
{
    lemma_nquads_text_push(Seq::empty(), q);
    assert(Seq::<Nquad>::empty().push(q) =~= seq![q]);
}

fn push_quads(out: &mut String, more: &String, done: Ghost<Seq<Nquad>>, added: Ghost<Seq<Nquad>>)
    requires
        old(out)@ == nquads_text(done@),
        more@ == nquads_text(added@),
    ensures
        final(out)@ == nquads_text(done@ + added@),
{
    out.append(more.as_str());
    proof {
        lemma_nquads_text_add(done@, added@);
    }
}

fn add_value(out: &mut String, done: Ghost<Seq<Nquad>>, subject: &str, predicate: &str, value: &str) -> (r:
    Ghost<Seq<Nquad>>)
    requires
        old(out)@ == nquads_text(done@),
    ensures
        r@ == done@.push(value_quad(subject@, predicate@, value@)),
        final(out)@ == nquads_text(r@),
{
    push_value_quad(out, subject, predicate, value);
    proof {
        lemma_nquads_text_push(done@, value_quad(subject@, predicate@, value@));
    }
    Ghost(done@.push(value_quad(subject@, predicate@, value@)))
}

fn add_node(out: &mut String, done: Ghost<Seq<Nquad>>, subject: &str, predicate: &str, object: &str) -> (r:
    Ghost<Seq<Nquad>>)
    requires
        old(out)@ == nquads_text(done@),
    ensures
        r@ == done@.push(node_quad(subject@, predicate@, object@)),
        final(out)@ == nquads_text(r@),
{
    push_node_quad(out, subject, predicate, object);
    proof {
        lemma_nquads_text_push(done@, node_quad(subject@, predicate@, object@));
    }
    Ghost(done@.push(node_quad(subject@, predicate@, object@)))
}

/// Appends the statement text that `RDFable::nqd` rendered for an optional value.
fn add_optional(
    out: &mut String,
    done: Ghost<Seq<Nquad>>,
    rendered: &String,
    subject: Ghost<Seq<char>>,
    predicate: Ghost<Seq<char>>,
    value: Ghost<Option<Seq<char>>>,
) -> (r: Ghost<Seq<Nquad>>)
    requires
        old(out)@ == nquads_text(done@),
        rendered@ == (match value@ {
            Some(v) => statement(node(subject@), predicate@, quoted(v)),
            None => Seq::empty(),
        }),
    ensures
        r@ == done@ + optional_quad(subject@, predicate@, value@),
        final(out)@ == nquads_text(r@),
{
    proof {
        match value@ {
            Some(v) => lemma_single_quad(value_quad(subject@, predicate@, v)),
            None => {},
        }
    }
    push_quads(out, rendered, done, Ghost(optional_quad(subject@, predicate@, value@)));
    Ghost(done@ + optional_quad(subject@, predicate@, value@))
}

/// Whether every natural key that the track transaction binds is non-empty.
pub fn track_keys_ok(lib_name: &str, track: &Track) -> (r: bool)
    ensures
        r == track_keys_valid(lib_name@, *track),
{
    if is_empty_text(lib_name) || is_empty_text(track.track_ref.as_str()) || is_empty_text(
        track.file_path.as_str(),
    ) {
        return false;
    }
    match &track.album_ref {
        Some(r) => {
            if is_empty_text(r.as_str()) {
                return false;
            }
        },
        None => {},
    }
    let mut i: usize = 0;
    while i < track.artist_ref.len()
        invariant
            i <= track.artist_ref.len(),
            forall|j: int| 0 <= j < i ==> #[trigger] track.artist_ref@[j]@.len() > 0,
        decreases track.artist_ref.len() - i,
    {
        if is_empty_text(track.artist_ref[i].as_str()) {
            return false;
        }
        i = i + 1;
    }
    true
}

/// The library upsert, refused for an empty name.
pub fn upsert_library(name: &str, path: &str) -> (r: Result<String, BuildError>)
    ensures
        name@.len() == 0 ==> r == Err::<String, BuildError>(BuildError::EmptyKey),
        name@.len() > 0 ==> (r matches Ok(dql) && dql@ == library_upsert(name@, path@)),
{
    if is_empty_text(name) {
        Err(BuildError::EmptyKey)
    } else {
        Ok(library_upsert_dql(name, path))
    }
}

fn track_vars(lib_name: &str, track: &Track) -> (r: String)
    ensures
        r@ == bindings_text(track_bindings(lib_name@, *track)),
{
    let mut bs = String::new();
    push_binding(&mut bs, VAR_LIBRARY, LIBRARY_NAME, lib_name);
    let artist_vars = track.artists_vars();
    bs.append(artist_vars.as_str());
    match &track.album_ref {
        Some(r) => push_binding(&mut bs, VAR_ALBUM, ALBUM_MBID, r.as_str()),
        None => {},
    }
    push_binding(&mut bs, VAR_AUDIO, AUDIO_PATH, track.file_path.as_str());
    push_binding(&mut bs, VAR_TRACK, TRACK_MBID, track.track_ref.as_str());
    proof {
        let lib_b = seq![Binding { var: VAR_LIBRARY@, predicate: LIBRARY_NAME@, key: lib_name@ }];
        let ar_b = artist_bindings(views(track.artist_ref@));
        let al_b = album_bindings(*track);
        let au_b = Binding { var: VAR_AUDIO@, predicate: AUDIO_PATH@, key: track.file_path@ };
        let t_b = Binding { var: VAR_TRACK@, predicate: TRACK_MBID@, key: track.track_ref@ };
        lemma_bindings_text_push(Seq::empty(), lib_b[0]);
        assert(Seq::<Binding>::empty().push(lib_b[0]) =~= lib_b);
        lemma_bindings_text_add(lib_b, ar_b);
        lemma_bindings_text_add(lib_b + ar_b, al_b);
        match track.album_ref {
            Some(_) => {
                lemma_bindings_text_push(Seq::empty(), al_b[0]);
                assert(Seq::<Binding>::empty().push(al_b[0]) =~= al_b);
            },
            None => {},
        }
        lemma_bindings_text_push(lib_b + ar_b + al_b, au_b);
        lemma_bindings_text_push((lib_b + ar_b + al_b).push(au_b), t_b);
        assert((lib_b + ar_b + al_b).push(au_b).push(t_b) =~= track_bindings(lib_name@, *track));
    }
    bs
}

fn library_link_muts(lib_name: &str) -> (r: String)
    ensures
        r@ == nquads_text(library_link(lib_name@)),
{
    let mut out = String::new();
    let g = Ghost(Seq::<Nquad>::empty());
    let g = add_value(&mut out, g, VAR_LIBRARY, TYPE, "Library");
    let g = add_value(&mut out, g, VAR_LIBRARY, LIBRARY_NAME, lib_name);
    let g = add_node(&mut out, g, VAR_LIBRARY, LIBRARY_TRACK, VAR_TRACK);
    assert(g@ =~= library_link(lib_name@));
    out
}

fn album_muts(track: &Track) -> (r: String)
    ensures
        r@ == nquads_text(album_nquads(*track)),
{
    let mut out = String::new();
    let g = Ghost(Seq::<Nquad>::empty());
    match &track.album_ref {
        Some(r) => {
            let al = node_ref(VAR_ALBUM);
            let g = add_value(&mut out, g, VAR_ALBUM, TYPE, "MusicAlbum");
            let g = add_value(&mut out, g, VAR_ALBUM, ALBUM_MBID, r.as_str());
            let g = add_node(&mut out, g, VAR_ALBUM, ALBUM_TRACK, VAR_TRACK);
            let title = track.album.nqd(al.as_str(), TITLE);
            let g = add_optional(
                &mut out,
                g,
                &title,
                Ghost(VAR_ALBUM@),
                Ghost(TITLE@),
                Ghost(text_view(track.album)),
            );
            let g = add_node(&mut out, g, VAR_TRACK, TRACK_ALBUM, VAR_ALBUM);
            assert(g@ =~= album_nquads(*track));
        },
        None => {},
    }
    out
}

fn recording_muts(track: &Track) -> (r: String)
    ensures
        r@ == nquads_text(recording_nquads(*track)),
{
    let t = node_ref(VAR_TRACK);
    let mut out = String::new();
    let g = Ghost(Seq::<Nquad>::empty());
    let g = add_value(&mut out, g, VAR_TRACK, TYPE, "MusicRecording");
    let g = add_value(&mut out, g, VAR_TRACK, TRACK_MBID, track.track_ref.as_str());
    let g = add_value(&mut out, g, VAR_TRACK, TITLE, track.title.as_str());
    let g = add_value(&mut out, g, VAR_TRACK, DISPLAY_ARTIST, track.artist.as_str());
    let g = add_node(&mut out, g, VAR_TRACK, TRACK_AUDIO, VAR_AUDIO);
    let duration = track.duration_seconds.nqd(t.as_str(), TRACK_DURATION);
    let g = add_optional(
        &mut out,
        g,
        &duration,
        Ghost(VAR_TRACK@),
        Ghost(TRACK_DURATION@),
        Ghost(number_view(track.duration_seconds)),
    );
    let year = track.original_year.nqd(t.as_str(), ORIGINAL_YEAR);
    let g = add_optional(
        &mut out,
        g,
        &year,
        Ghost(VAR_TRACK@),
        Ghost(ORIGINAL_YEAR@),
        Ghost(year_view(track.original_year)),
    );
    let size = decimal_string(track.file_size);
    let g = add_value(&mut out, g, VAR_TRACK, TRACK_SIZE, size.as_str());
    assert(g@ =~= recording_nquads(*track));
    out
}

fn audio_muts(track: &Track) -> (r: String)
    ensures
        r@ == nquads_text(audio_nquads(*track)),
{
    let size = decimal_string(track.file_size);
    let mut out = String::new();
    let g = Ghost(Seq::<Nquad>::empty());
    let g = add_value(&mut out, g, VAR_AUDIO, TYPE, "AudioObject");
    let g = add_value(&mut out, g, VAR_AUDIO, AUDIO_SIZE, size.as_str());
    let g = add_value(&mut out, g, VAR_AUDIO, AUDIO_PATH, track.file_path.as_str());
    assert(g@ =~= audio_nquads(*track));
    out
}

/// The track upsert for `track` in the library `lib_name`, refused when a
/// natural key is empty.
pub fn upsert_track(lib_name: &str, track: &Track) -> (r: Result<TrackUpsert, BuildError>)
    ensures
        !track_keys_valid(lib_name@, *track) ==> r == Err::<TrackUpsert, BuildError>(
            BuildError::EmptyKey,
        ),
        track_keys_valid(lib_name@, *track) ==> (r matches Ok(u) && u.dql@ == track_upsert(
            lib_name@,
            *track,
        ) && u.degraded == (track.artist_ref.len() > 1)),
{
    if !track_keys_ok(lib_name, track) {
        return Err(BuildError::EmptyKey);
    }
    let ghost lib_q = library_link(lib_name@);
    let ghost ar_q = artist_nquads(views(track.artist_ref@), track.artist@);
    let ghost al_q = album_nquads(*track);
    let ghost rec_q = recording_nquads(*track);
    let ghost au_q = audio_nquads(*track);
    let mut out = library_link_muts(lib_name);
    let (artist_text, degraded) = track.artists_muts();
    push_quads(&mut out, &artist_text, Ghost(lib_q), Ghost(ar_q));
    let album_text = album_muts(track);
    push_quads(&mut out, &album_text, Ghost(lib_q + ar_q), Ghost(al_q));
    let recording_text = recording_muts(track);
    push_quads(&mut out, &recording_text, Ghost(lib_q + ar_q + al_q), Ghost(rec_q));
    let audio_text = audio_muts(track);
    push_quads(&mut out, &audio_text, Ghost(lib_q + ar_q + al_q + rec_q), Ghost(au_q));
    let bs = track_vars(lib_name, track);
    let mut dql = String::from_str("upsert {\nquery {\n");
    dql.append(bs.as_str());
    dql.append("}\nmutation");
    dql.append(" {\nset {\n");
    dql.append(out.as_str());
    dql.append("}\n}\n}\n");
    proof {
        assert(Seq::<char>::empty() + " {\nset {\n"@ =~= " {\nset {\n"@);
    }
    Ok(TrackUpsert { dql, degraded })
}

impl Track {
    /// One binding per artist reference, by position.
    pub fn artists_vars(&self) -> (r: String)
        ensures
            r@ == bindings_text(artist_bindings(views(self.artist_ref@))),
    {
        let ghost refs = views(self.artist_ref@);
        let mut out = String::new();
        let mut i: usize = 0;
        while i < self.artist_ref.len()
            invariant
                i <= self.artist_ref.len(),
                refs == views(self.artist_ref@),
                out@ == bindings_text(artist_bindings(refs.take(i as int))),
            decreases self.artist_ref.len() - i,
        {
            let var = artist_var_name(i);
            proof {
                assert(refs.take(i + 1).drop_last() =~= refs.take(i as int));
                lemma_bindings_text_push(
                    artist_bindings(refs.take(i as int)),
                    Binding { var: var@, predicate: ARTIST_MBID@, key: refs[i as int] },
                );
            }
            push_binding(&mut out, var.as_str(), ARTIST_MBID, self.artist_ref[i].as_str());
            i = i + 1;
        }
        assert(refs.take(self.artist_ref.len() as int) =~= refs);
        out
    }

    /// The statements of every artist position, each naming the display
    /// artist, and whether that name had to stand for several artists.
    pub fn artists_muts(&self) -> (r: (String, bool))
        ensures
            r.0@ == nquads_text(artist_nquads(views(self.artist_ref@), self.artist@)),
            r.1 == (self.artist_ref.len() > 1),
    {
        let ghost refs = views(self.artist_ref@);
        let degraded = self.artist_ref.len() > 1;
        let mut out = String::new();
        let mut i: usize = 0;
        while i < self.artist_ref.len()
            invariant
                i <= self.artist_ref.len(),
                refs == views(self.artist_ref@),
                out@ == nquads_text(artist_nquads(refs.take(i as int), self.artist@)),
            decreases self.artist_ref.len() - i,
        {
            let var = artist_var_name(i);
            let ghost done = artist_nquads(refs.take(i as int), self.artist@);
            let ghost link = artist_link(i as nat, refs[i as int], self.artist@);
            let mut block = String::new();
            push_node_quad(&mut block, VAR_LIBRARY, LIBRARY_ARTIST, var.as_str());
            push_value_quad(&mut block, var.as_str(), TYPE, "Artist");
            push_value_quad(&mut block, var.as_str(), ARTIST_MBID, self.artist_ref[i].as_str());
            push_value_quad(&mut block, var.as_str(), ARTIST_NAMES, self.artist.as_str());
            push_node_quad(&mut block, VAR_TRACK, BY_ARTIST, var.as_str());
            proof {
                assert(refs.take(i + 1).drop_last() =~= refs.take(i as int));
                lemma_nquads_text_push(link.take(4), link[4]);
                lemma_nquads_text_push(link.take(3), link[3]);
                lemma_nquads_text_push(link.take(2), link[2]);
                lemma_nquads_text_push(link.take(1), link[1]);
                lemma_nquads_text_push(link.take(0), link[0]);
                assert(link.take(4).push(link[4]) =~= link);
                assert(link.take(3).push(link[3]) =~= link.take(4));
                assert(link.take(2).push(link[2]) =~= link.take(3));
                assert(link.take(1).push(link[1]) =~= link.take(2));
                assert(link.take(0).push(link[0]) =~= link.take(1));
            }
            push_quads(&mut out, &block, Ghost(done), Ghost(link));
            i = i + 1;
        }
        assert(refs.take(self.artist_ref.len() as int) =~= refs);
        (out, degraded)
    }
}

} // verus!
