//! Properties of the transactions and of the import run.
use crate::dal::{
    album_nquads, artist_link, artist_nquads, artist_var, audio_nquads, library_link, node_quad,
    optional_quad, recording_nquads, track_nquads, value_quad, year_view, number_view,
    artist_bindings, album_bindings, track_bindings, views,
};
use crate::dql::{
    Binding, Nquad, VAR_ALBUM, VAR_AUDIO, VAR_LIBRARY, ALBUM_MBID, ALBUM_TRACK, ARTIST_MBID, ARTIST_NAMES, AUDIO_PATH, AUDIO_SIZE, BY_ARTIST,
    DISPLAY_ARTIST, LIBRARY_ARTIST, LIBRARY_NAME, LIBRARY_TRACK, ORIGINAL_YEAR, TITLE, TRACK_ALBUM,
    TRACK_AUDIO, TRACK_DURATION, TRACK_MBID, TRACK_SIZE, TYPE, VAR_TRACK,
};
use crate::formatter::{decimal, digit_char};
use crate::graph::{
    apply, asserted, env, handles, key_statement, lemma_apply_idempotent, object_matches,
    well_formed, Graph, Stored,
};
use crate::metadata::{
    checked, extracted, is_fresh, last_for, poor_metadata, tags_applied, visuals_applied, yields,
    AudioFile, Field, MetadataError, Probe, UNSET,
};
use crate::track::Track;
use vstd::prelude::*;

verus! {

/// No statement of `qs` asserts the original year.
pub open spec fn no_year(qs: Seq<Nquad>) -> bool {
    forall|i: int| 0 <= i < qs.len() ==> (#[trigger] qs[i]).predicate != ORIGINAL_YEAR@
}

proof fn lemma_year_predicate_distinct()
    ensures
        ORIGINAL_YEAR@ != TYPE@,
        ORIGINAL_YEAR@ != LIBRARY_NAME@,
        ORIGINAL_YEAR@ != LIBRARY_TRACK@,
        ORIGINAL_YEAR@ != LIBRARY_ARTIST@,
        ORIGINAL_YEAR@ != ARTIST_MBID@,
        ORIGINAL_YEAR@ != ARTIST_NAMES@,
        ORIGINAL_YEAR@ != BY_ARTIST@,
        ORIGINAL_YEAR@ != ALBUM_MBID@,
        ORIGINAL_YEAR@ != ALBUM_TRACK@,
        ORIGINAL_YEAR@ != TITLE@,
        ORIGINAL_YEAR@ != TRACK_ALBUM@,
        ORIGINAL_YEAR@ != TRACK_MBID@,
        ORIGINAL_YEAR@ != DISPLAY_ARTIST@,
        ORIGINAL_YEAR@ != TRACK_AUDIO@,
        ORIGINAL_YEAR@ != TRACK_DURATION@,
        ORIGINAL_YEAR@ != TRACK_SIZE@,
        ORIGINAL_YEAR@ != AUDIO_SIZE@,
        ORIGINAL_YEAR@ != AUDIO_PATH@,
{
    reveal_strlit("<CreativeWork.originalYear>");
    reveal_strlit("<dgraph.type>");
    reveal_strlit("<Library.name>");
    reveal_strlit("<Library.track>");
    reveal_strlit("<Library.artist>");
    reveal_strlit("<Artist.mbid>");
    reveal_strlit("<Artist.names>");
    reveal_strlit("<CreativeWork.byArtist>");
    reveal_strlit("<Album.mbid>");
    reveal_strlit("<MusicAlbum.track>");
    reveal_strlit("<CreativeWork.title>");
    reveal_strlit("<MusicRecording.inAlbum>");
    reveal_strlit("<MusicRecording.mbid>");
    reveal_strlit("<CreativeWork.artist>");
    reveal_strlit("<MusicRecording.audio>");
    reveal_strlit("<MusicRecording.durationSeconds>");
    reveal_strlit("<MusicRecording.sizeKilobytes>");
    reveal_strlit("<AudioObject.sizeKilobytes>");
    reveal_strlit("<AudioObject.filepath>");
    assert(ORIGINAL_YEAR@[1] != AUDIO_SIZE@[1]);
    assert(ORIGINAL_YEAR@[14] != BY_ARTIST@[14]);
    assert(ORIGINAL_YEAR@[14] != TITLE@[14]);
}

/// The statements of the artist positions: five per position, the fourth
/// naming the artist and the fifth linking the track to it.
pub proof fn lemma_artist_statements(refs: Seq<Seq<char>>, name: Seq<char>)
    ensures
        artist_nquads(refs, name).len() == 5 * refs.len(),
        forall|i: int|
            0 <= i < refs.len() ==> artist_nquads(refs, name)[5 * i + 3] == value_quad(
                artist_var(i as nat),
                ARTIST_NAMES@,
                name,
            ) && artist_nquads(refs, name)[5 * i + 4] == node_quad(
                VAR_TRACK@,
                BY_ARTIST@,
                artist_var(i as nat),
            ) && artist_nquads(refs, name)[5 * i + 2] == value_quad(
                artist_var(i as nat),
                ARTIST_MBID@,
                refs[i],
            ),
        no_year(artist_nquads(refs, name)),
    decreases refs.len(),
{
    if refs.len() > 0 {
        let rest = refs.drop_last();
        lemma_artist_statements(rest, name);
        lemma_year_predicate_distinct();
        let all = artist_nquads(refs, name);
        let last = artist_link((refs.len() - 1) as nat, refs.last(), name);
        assert(all == artist_nquads(rest, name) + last);
        assert forall|i: int| 0 <= i < refs.len() implies all[5 * i + 3] == value_quad(
            artist_var(i as nat),
            ARTIST_NAMES@,
            name,
        ) && all[5 * i + 4] == node_quad(VAR_TRACK@, BY_ARTIST@, artist_var(i as nat)) && all[5 * i
            + 2] == value_quad(artist_var(i as nat), ARTIST_MBID@, refs[i]) by {
            if i < rest.len() {
                assert(rest[i] == refs[i]);
            }
        }
    }
}

/// A track without an original year yields no year statement; a track with
/// one yields exactly one, carrying the year in decimal.
#[verifier::rlimit(40)]
pub proof fn lemma_year_statement(lib: Seq<char>, t: Track)
    ensures
        t.original_year is None ==> no_year(track_nquads(lib, t)),
        t.original_year matches Some(y) ==> exists|k: int|
            0 <= k < track_nquads(lib, t).len() && track_nquads(lib, t)[k] == value_quad(
                VAR_TRACK@,
                ORIGINAL_YEAR@,
                decimal(y as nat),
            ) && forall|j: int|
                0 <= j < track_nquads(lib, t).len() && j != k ==> (#[trigger] track_nquads(
                    lib,
                    t,
                )[j]).predicate != ORIGINAL_YEAR@,
{
    lemma_year_predicate_distinct();
    lemma_artist_statements(crate::dal::views(t.artist_ref@), t.artist@);
    let a = library_link(lib);
    let b = artist_nquads(crate::dal::views(t.artist_ref@), t.artist@);
    let c = album_nquads(t);
    let d = recording_nquads(t);
    let e = audio_nquads(t);
    let all = track_nquads(lib, t);
    assert(all == a + b + c + d + e);
    assert(no_year(a));
    assert(no_year(c));
    assert(no_year(e));
    let head = seq![
        value_quad(VAR_TRACK@, TYPE@, "MusicRecording"@),
        value_quad(VAR_TRACK@, TRACK_MBID@, t.track_ref@),
        value_quad(VAR_TRACK@, TITLE@, t.title@),
        value_quad(VAR_TRACK@, DISPLAY_ARTIST@, t.artist@),
        node_quad(VAR_TRACK@, TRACK_AUDIO@, crate::dql::VAR_AUDIO@),
    ];
    let dur = optional_quad(VAR_TRACK@, TRACK_DURATION@, number_view(t.duration_seconds));
    let year = optional_quad(VAR_TRACK@, ORIGINAL_YEAR@, year_view(t.original_year));
    let size = seq![value_quad(VAR_TRACK@, TRACK_SIZE@, decimal(t.file_size as nat))];
    assert(d == head + dur + year + size);
    assert(no_year(head));
    assert(no_year(dur));
    assert(no_year(size));
    let before = a + b + c + head + dur;
    assert(no_year(before));
    assert(all == before + year + size + e);
    match t.original_year {
        None => {
            assert(no_year(year));
        },
        Some(y) => {
            let k = before.len() as int;
            assert(all[k] == value_quad(VAR_TRACK@, ORIGINAL_YEAR@, decimal(y as nat)));
            assert forall|j: int| 0 <= j < all.len() && j != k implies (#[trigger] all[j]).predicate
                != ORIGINAL_YEAR@ by {
                if j < k {
                    assert(all[j] == before[j]);
                } else if j < k + 1 + size.len() {
                    assert(all[j] == size[j - k - 1]);
                } else {
                    assert(all[j] == e[j - k - 1 - size.len()]);
                }
            }
        },
    }
}

/// A track with an empty title never passes the quality gate, whatever
/// reference it would have been given.
pub proof fn lemma_empty_title_refused(t: Track, fallback: String)
    requires
        t.title@.len() == 0,
    ensures
        poor_metadata(t),
        checked(t, fallback) is Err,
{
}

proof fn lemma_digit_injective(x: nat, y: nat)
    requires
        x < 10,
        y < 10,
        digit_char(x) == digit_char(y),
    ensures
        x == y,
{
    let ds = seq!['0', '1', '2', '3', '4', '5', '6', '7', '8', '9'];
    assert(ds[0] == '0' && ds[1] == '1' && ds[2] == '2' && ds[3] == '3' && ds[4] == '4' && ds[5]
        == '5' && ds[6] == '6' && ds[7] == '7' && ds[8] == '8' && ds[9] == '9');
}

proof fn lemma_decimal_len(n: nat)
    ensures
        decimal(n).len() >= 1,
        n >= 10 ==> decimal(n).len() >= 2,
    decreases n,
{
    if n >= 10 {
        lemma_decimal_len(n / 10);
    }
}

/// Different numbers have different decimal notations.
proof fn lemma_decimal_injective(a: nat, b: nat)
    requires
        decimal(a) == decimal(b),
    ensures
        a == b,
    decreases a,
{
    lemma_decimal_len(a);
    lemma_decimal_len(b);
    if a < 10 && b < 10 {
        assert(decimal(a)[0] == digit_char(a));
        lemma_digit_injective(a, b);
    } else if a >= 10 && b >= 10 {
        assert(decimal(a).drop_last() =~= decimal(a / 10));
        assert(decimal(b).drop_last() =~= decimal(b / 10));
        lemma_decimal_injective(a / 10, b / 10);
        assert(decimal(a).last() == digit_char(a % 10));
        assert(decimal(b).last() == digit_char(b % 10));
        lemma_digit_injective(a % 10, b % 10);
    }
}

proof fn lemma_artist_bindings(refs: Seq<Seq<char>>)
    ensures
        artist_bindings(refs).len() == refs.len(),
        forall|i: int|
            0 <= i < refs.len() ==> #[trigger] artist_bindings(refs)[i] == (Binding {
                var: artist_var(i as nat),
                predicate: ARTIST_MBID@,
                key: refs[i],
            }),
    decreases refs.len(),
{
    if refs.len() > 0 {
        lemma_artist_bindings(refs.drop_last());
        assert forall|i: int| 0 <= i < refs.len() implies #[trigger] artist_bindings(refs)[i] == (Binding {
            var: artist_var(i as nat),
            predicate: ARTIST_MBID@,
            key: refs[i],
        }) by {
            if i < refs.len() - 1 {
                assert(refs.drop_last()[i] == refs[i]);
            }
        }
    }
}

/// A predicate on which some binding of a track transaction looks up its key.
pub open spec fn key_predicate(p: Seq<char>) -> bool {
    p == LIBRARY_NAME@ || p == ARTIST_MBID@ || p == ALBUM_MBID@ || p == AUDIO_PATH@ || p == TRACK_MBID@
}

#[verifier::rlimit(40)]
proof fn lemma_key_predicates()
    ensures
        !key_predicate(TYPE@),
        !key_predicate(LIBRARY_TRACK@),
        !key_predicate(LIBRARY_ARTIST@),
        !key_predicate(ARTIST_NAMES@),
        !key_predicate(BY_ARTIST@),
        !key_predicate(ALBUM_TRACK@),
        !key_predicate(TITLE@),
        !key_predicate(TRACK_ALBUM@),
        !key_predicate(DISPLAY_ARTIST@),
        !key_predicate(TRACK_AUDIO@),
        !key_predicate(TRACK_DURATION@),
        !key_predicate(ORIGINAL_YEAR@),
        !key_predicate(TRACK_SIZE@),
        !key_predicate(AUDIO_SIZE@),
        LIBRARY_NAME@ != ARTIST_MBID@,
        LIBRARY_NAME@ != ALBUM_MBID@,
        LIBRARY_NAME@ != AUDIO_PATH@,
        LIBRARY_NAME@ != TRACK_MBID@,
        ARTIST_MBID@ != ALBUM_MBID@,
        ARTIST_MBID@ != AUDIO_PATH@,
        ARTIST_MBID@ != TRACK_MBID@,
        ALBUM_MBID@ != AUDIO_PATH@,
        ALBUM_MBID@ != TRACK_MBID@,
        AUDIO_PATH@ != TRACK_MBID@,
{
    reveal_strlit("<CreativeWork.originalYear>");
    reveal_strlit("<dgraph.type>");
    reveal_strlit("<Library.name>");
    reveal_strlit("<Library.track>");
    reveal_strlit("<Library.artist>");
    reveal_strlit("<Artist.mbid>");
    reveal_strlit("<Artist.names>");
    reveal_strlit("<CreativeWork.byArtist>");
    reveal_strlit("<Album.mbid>");
    reveal_strlit("<MusicAlbum.track>");
    reveal_strlit("<CreativeWork.title>");
    reveal_strlit("<MusicRecording.inAlbum>");
    reveal_strlit("<MusicRecording.mbid>");
    reveal_strlit("<CreativeWork.artist>");
    reveal_strlit("<MusicRecording.audio>");
    reveal_strlit("<MusicRecording.durationSeconds>");
    reveal_strlit("<MusicRecording.sizeKilobytes>");
    reveal_strlit("<AudioObject.sizeKilobytes>");
    reveal_strlit("<AudioObject.filepath>");
    assert(TYPE@[1] != LIBRARY_NAME@[1]);
    assert(LIBRARY_TRACK@[9] != LIBRARY_NAME@[9]);
    assert(LIBRARY_ARTIST@[9] != LIBRARY_NAME@[9]);
    assert(ARTIST_NAMES@[8] != ARTIST_MBID@[8]);
    assert(BY_ARTIST@[1] != TRACK_MBID@[1]);
    assert(ALBUM_TRACK@[6] != TRACK_MBID@[6]);
    assert(TITLE@[1] != TRACK_MBID@[1]);
    assert(TRACK_ALBUM@[16] != TRACK_MBID@[16]);
    assert(DISPLAY_ARTIST@[1] != TRACK_MBID@[1]);
    assert(TRACK_AUDIO@[16] != TRACK_MBID@[16]);
    assert(TRACK_AUDIO@[1] != AUDIO_PATH@[1]);
    assert(TRACK_SIZE@[1] != AUDIO_PATH@[1]);
    assert(AUDIO_SIZE@[13] != AUDIO_PATH@[13]);
    assert(ORIGINAL_YEAR@[1] != AUDIO_PATH@[1]);
    assert(TRACK_DURATION@[16] != TRACK_MBID@[16]);
    assert(AUDIO_SIZE@[1] != LIBRARY_NAME@[1] && AUDIO_SIZE@[2] != ARTIST_MBID@[2]);
    assert(AUDIO_SIZE@[2] != ALBUM_MBID@[2] && AUDIO_SIZE@[1] != TRACK_MBID@[1]);
    assert(ALBUM_MBID@[2] != AUDIO_PATH@[2] && ARTIST_MBID@[2] != AUDIO_PATH@[2]);
    assert(TRACK_DURATION@[1] != LIBRARY_NAME@[1] && TRACK_DURATION@[1] != ARTIST_MBID@[1]);
    assert(TRACK_DURATION@[1] != ALBUM_MBID@[1] && TRACK_DURATION@[1] != AUDIO_PATH@[1]);
    assert(TRACK_ALBUM@[1] != LIBRARY_NAME@[1] && TRACK_ALBUM@[1] != ARTIST_MBID@[1]);
    assert(TRACK_ALBUM@[1] != ALBUM_MBID@[1] && TRACK_ALBUM@[1] != AUDIO_PATH@[1]);
}

/// Every statement of `seg` either asserts no key predicate or is the key
/// statement of one of `bs`.
pub open spec fn covered(bs: Seq<Binding>, seg: Seq<Nquad>) -> bool {
    forall|k: int|
        0 <= k < seg.len() ==> !key_predicate((#[trigger] seg[k]).predicate) || exists|j: int|
            0 <= j < bs.len() && key_statement(bs[j]) == seg[k]
}

proof fn lemma_covered_add(bs: Seq<Binding>, x: Seq<Nquad>, y: Seq<Nquad>)
    requires
        covered(bs, x),
        covered(bs, y),
    ensures
        covered(bs, x + y),
{
    assert forall|k: int| 0 <= k < (x + y).len() implies !key_predicate((#[trigger] (x + y)[k]).predicate)
        || exists|j: int| 0 <= j < bs.len() && key_statement(bs[j]) == (x + y)[k] by {
        if k < x.len() {
            assert((x + y)[k] == x[k]);
        } else {
            assert((x + y)[k] == y[k - x.len()]);
        }
    }
}

proof fn lemma_artists_covered(bs: Seq<Binding>, refs: Seq<Seq<char>>, name: Seq<char>)
    requires
        bs.len() > refs.len(),
        forall|i: int|
            0 <= i < refs.len() ==> #[trigger] bs[1 + i] == (Binding {
                var: artist_var(i as nat),
                predicate: ARTIST_MBID@,
                key: refs[i],
            }),
    ensures
        covered(bs, artist_nquads(refs, name)),
    decreases refs.len(),
{
    lemma_key_predicates();
    if refs.len() > 0 {
        let rest = refs.drop_last();
        assert forall|i: int| 0 <= i < rest.len() implies #[trigger] bs[1 + i] == (Binding {
            var: artist_var(i as nat),
            predicate: ARTIST_MBID@,
            key: rest[i],
        }) by {
            assert(bs[1 + i] == (Binding { var: artist_var(i as nat), predicate: ARTIST_MBID@, key: refs[i] }));
        }
        lemma_artists_covered(bs, rest, name);
        let n = refs.len() - 1;
        let link = artist_link(n as nat, refs.last(), name);
        assert(bs[1 + n] == (Binding { var: artist_var(n as nat), predicate: ARTIST_MBID@, key: refs[n] }));
        assert(key_statement(bs[1 + n]) == link[2]);
        assert(covered(bs, link));
        lemma_covered_add(bs, artist_nquads(rest, name), link);
    }
}

proof fn lemma_fixed_vars()
    ensures
        VAR_LIBRARY@.len() == 1,
        VAR_TRACK@.len() == 1,
        VAR_ALBUM@.len() == 2,
        VAR_AUDIO@.len() == 2,
        VAR_LIBRARY@ != VAR_TRACK@,
        VAR_ALBUM@ != VAR_AUDIO@,
        "ar"@.len() == 2,
{
    reveal_strlit("l");
    reveal_strlit("t");
    reveal_strlit("al");
    reveal_strlit("au");
    reveal_strlit("ar");
    assert(VAR_LIBRARY@[0] != VAR_TRACK@[0]);
    assert(VAR_ALBUM@[1] != VAR_AUDIO@[1]);
}

proof fn lemma_artist_var(i: nat, j: nat)
    ensures
        artist_var(i).len() >= 3,
        artist_var(i) == artist_var(j) ==> i == j,
{
    lemma_fixed_vars();
    lemma_decimal_len(i);
    if artist_var(i) == artist_var(j) {
        lemma_decimal_len(j);
        assert(artist_var(i).subrange(2, artist_var(i).len() as int) =~= decimal(i));
        assert(artist_var(j).subrange(2, artist_var(j).len() as int) =~= decimal(j));
        lemma_decimal_injective(i, j);
    }
}

/// The bindings of a track transaction, position by position.
#[verifier::rlimit(40)]
proof fn lemma_track_bindings_shape(lib: Seq<char>, t: Track)
    ensures
        ({
            let bs = track_bindings(lib, t);
            let n = t.artist_ref@.len() as int;
            let a = album_bindings(t).len() as int;
            &&& a <= 1
            &&& bs.len() == n + a + 3
            &&& bs[0] == (Binding { var: VAR_LIBRARY@, predicate: LIBRARY_NAME@, key: lib })
            &&& forall|i: int|
                0 <= i < n ==> #[trigger] bs[1 + i] == (Binding {
                    var: artist_var(i as nat),
                    predicate: ARTIST_MBID@,
                    key: t.artist_ref@[i]@,
                })
            &&& (t.album_ref matches Some(r) ==> a == 1 && bs[1 + n] == (Binding {
                var: VAR_ALBUM@,
                predicate: ALBUM_MBID@,
                key: r@,
            }))
            &&& (t.album_ref is None ==> a == 0)
            &&& bs[1 + n + a] == (Binding { var: VAR_AUDIO@, predicate: AUDIO_PATH@, key: t.file_path@ })
            &&& bs[2 + n + a] == (Binding { var: VAR_TRACK@, predicate: TRACK_MBID@, key: t.track_ref@ })
        }),
{
    let refs = views(t.artist_ref@);
    let n = refs.len() as int;
    let bs = track_bindings(lib, t);
    let lib_b = Binding { var: VAR_LIBRARY@, predicate: LIBRARY_NAME@, key: lib };
    let ab = artist_bindings(refs);
    let alb = album_bindings(t);
    let au_b = Binding { var: VAR_AUDIO@, predicate: AUDIO_PATH@, key: t.file_path@ };
    let t_b = Binding { var: VAR_TRACK@, predicate: TRACK_MBID@, key: t.track_ref@ };
    lemma_artist_bindings(refs);
    let a = alb.len() as int;
    assert(bs == seq![lib_b] + ab + alb + seq![au_b, t_b]);
    assert forall|i: int| 0 <= i < n implies #[trigger] bs[1 + i] == (Binding {
        var: artist_var(i as nat),
        predicate: ARTIST_MBID@,
        key: t.artist_ref@[i]@,
    }) by {
        assert(bs[1 + i] == ab[i]);
        assert(refs[i] == t.artist_ref@[i]@);
    }
    assert(a == 1 ==> bs[1 + n] == alb[0]);
    assert(bs[1 + n + a] == au_b);
    assert(bs[2 + n + a] == t_b);
}

/// No two bindings of a track transaction share a variable, nor a key.
#[verifier::rlimit(40)]
proof fn lemma_track_bindings_distinct(lib: Seq<char>, t: Track)
    requires
        forall|i: int, j: int|
            0 <= i < t.artist_ref@.len() && 0 <= j < t.artist_ref@.len() && i != j ==> (
            #[trigger] t.artist_ref@[i])@ != (#[trigger] t.artist_ref@[j])@,
    ensures
        ({
            let bs = track_bindings(lib, t);
            forall|i: int, j: int|
                0 <= i < bs.len() && 0 <= j < bs.len() && i != j ==> (#[trigger] bs[i]).var != (
                #[trigger] bs[j]).var && (bs[i].predicate != bs[j].predicate || bs[i].key
                != bs[j].key)
        }),
{
    lemma_key_predicates();
    lemma_fixed_vars();
    lemma_track_bindings_shape(lib, t);
    let bs = track_bindings(lib, t);
    let n = t.artist_ref@.len() as int;
    assert forall|i: int, j: int|
        0 <= i < bs.len() && 0 <= j < bs.len() && i != j implies (#[trigger] bs[i]).var != (
        #[trigger] bs[j]).var && (bs[i].predicate != bs[j].predicate || bs[i].key != bs[j].key) by {
        if 1 <= i < 1 + n {
            lemma_artist_var((i - 1) as nat, (j - 1) as nat);
            assert(bs[i] == bs[1 + (i - 1)]);
        }
        if 1 <= j < 1 + n {
            lemma_artist_var((j - 1) as nat, (i - 1) as nat);
            assert(bs[j] == bs[1 + (j - 1)]);
        }
    }
}

/// Every binding of a track transaction has its key statement.
#[verifier::rlimit(40)]
proof fn lemma_track_key_statements(lib: Seq<char>, t: Track)
    ensures
        ({
            let bs = track_bindings(lib, t);
            let qs = track_nquads(lib, t);
            forall|i: int| 0 <= i < bs.len() ==> qs.contains(key_statement(#[trigger] bs[i]))
        }),
{
    lemma_track_bindings_shape(lib, t);
    let refs = views(t.artist_ref@);
    let n = refs.len() as int;
    let a = album_bindings(t).len() as int;
    let bs = track_bindings(lib, t);
    let qs = track_nquads(lib, t);
    let sa = library_link(lib);
    let sb = artist_nquads(refs, t.artist@);
    let sc = album_nquads(t);
    let sd = recording_nquads(t);
    let se = audio_nquads(t);
    assert(qs == sa + sb + sc + sd + se);
    lemma_artist_statements(refs, t.artist@);
    let c = sc.len() as int;
    let d = sd.len() as int;
    assert forall|i: int| 0 <= i < bs.len() implies qs.contains(key_statement(#[trigger] bs[i])) by {
        if i == 0 {
            assert(qs[1] == sa[1]);
        } else if i < 1 + n {
            assert(bs[i] == bs[1 + (i - 1)]);
            assert(refs[i - 1] == t.artist_ref@[i - 1]@);
            assert(qs[3 + 5 * (i - 1) + 2] == sb[5 * (i - 1) + 2]);
            assert(qs[3 + 5 * (i - 1) + 2] == key_statement(bs[i]));
        } else if i < 1 + n + a {
            assert(qs[3 + 5 * n + 1] == sc[1]);
        } else if i == 1 + n + a {
            assert(qs[3 + 5 * n + c + d + 2] == se[2]);
        } else {
            assert(qs[3 + 5 * n + c + 1] == sd[1]);
        }
    }
}

/// In a track transaction only key statements assert a key predicate.
#[verifier::rlimit(40)]
proof fn lemma_track_keys_covered(lib: Seq<char>, t: Track)
    ensures
        covered(track_bindings(lib, t), track_nquads(lib, t)),
{
    lemma_key_predicates();
    lemma_track_bindings_shape(lib, t);
    let refs = views(t.artist_ref@);
    let n = refs.len() as int;
    let a = album_bindings(t).len() as int;
    let bs = track_bindings(lib, t);
    let sa = library_link(lib);
    let sb = artist_nquads(refs, t.artist@);
    let sc = album_nquads(t);
    let sd = recording_nquads(t);
    let se = audio_nquads(t);
    assert(track_nquads(lib, t) == sa + sb + sc + sd + se);
    assert(key_statement(bs[0]) == sa[1]);
    assert(covered(bs, sa));
    assert forall|i: int| 0 <= i < refs.len() implies #[trigger] bs[1 + i] == (Binding {
        var: artist_var(i as nat),
        predicate: ARTIST_MBID@,
        key: refs[i],
    }) by {
        assert(refs[i] == t.artist_ref@[i]@);
    }
    lemma_artists_covered(bs, refs, t.artist@);
    match t.album_ref {
        Some(r) => {
            assert(key_statement(bs[1 + n]) == sc[1]);
        },
        None => {},
    }
    assert(covered(bs, sc));
    assert(key_statement(bs[2 + n + a]) == sd[1]);
    assert(covered(bs, sd));
    assert(key_statement(bs[1 + n + a]) == se[2]);
    assert(covered(bs, se));
    lemma_covered_add(bs, sa, sb);
    lemma_covered_add(bs, sa + sb, sc);
    lemma_covered_add(bs, sa + sb + sc, sd);
    lemma_covered_add(bs, sa + sb + sc + sd, se);
}

/// The track transaction is well formed when its artist references are
/// pairwise different.
#[verifier::rlimit(40)]
pub proof fn lemma_track_well_formed(lib: Seq<char>, t: Track)
    requires
        forall|i: int, j: int|
            0 <= i < t.artist_ref@.len() && 0 <= j < t.artist_ref@.len() && i != j ==> (
            #[trigger] t.artist_ref@[i])@ != (#[trigger] t.artist_ref@[j])@,
    ensures
        well_formed(track_bindings(lib, t), track_nquads(lib, t)),
{
    lemma_key_predicates();
    lemma_track_bindings_shape(lib, t);
    lemma_track_bindings_distinct(lib, t);
    lemma_track_key_statements(lib, t);
    lemma_track_keys_covered(lib, t);
    let bs = track_bindings(lib, t);
    let qs = track_nquads(lib, t);
    let n = t.artist_ref@.len() as int;
    assert forall|i: int| 0 <= i < bs.len() implies key_predicate((#[trigger] bs[i]).predicate) by {
        if 1 <= i < 1 + n {
            assert(bs[i] == bs[1 + (i - 1)]);
        }
    }
    assert forall|k: int, i: int|
        0 <= k < qs.len() && 0 <= i < bs.len() && (#[trigger] qs[k]).object is Value
            && qs[k].predicate == (#[trigger] bs[i]).predicate implies exists|j: int|
        0 <= j < bs.len() && #[trigger] key_statement(bs[j]) == qs[k] by {
        assert(key_predicate(bs[i].predicate));
    }
}

/// Upserting the same track twice leaves the store as the first upsert left
/// it, and resolves the library, the artists, the album, the audio file and
/// the track itself to the same nodes both times.
pub proof fn lemma_track_upsert_idempotent(g: Graph, lib: Seq<char>, t: Track)
    requires
        forall|i: int, j: int|
            0 <= i < t.artist_ref@.len() && 0 <= j < t.artist_ref@.len() && i != j ==> (
            #[trigger] t.artist_ref@[i])@ != (#[trigger] t.artist_ref@[j])@,
    ensures
        ({
            let bs = track_bindings(lib, t);
            let qs = track_nquads(lib, t);
            &&& apply(apply(g, bs, qs), bs, qs) == apply(g, bs, qs)
            &&& forall|i: int| 0 <= i < bs.len() ==> #[trigger] handles(apply(g, bs, qs), bs, i) == handles(g, bs, i)
        }),
{
    lemma_track_well_formed(lib, t);
    lemma_apply_idempotent(g, track_bindings(lib, t), track_nquads(lib, t));
}

/// A file whose tags give an empty title, or no title at all, yields no
/// track: it never reaches a transaction, and a run counts it as skipped.
pub proof fn lemma_untitled_file_yields_nothing(
    file: AudioFile,
    probe: Probe,
    r: Result<Track, MetadataError>,
)
    requires
        yields(file, Ok(Some(probe)), r),
        match last_for(probe.tags@, Field::Title) {
            Some(v) => v@.len() == 0,
            None => true,
        },
    ensures
        r is Err,
{
    if file.extension is Some {
        let (t, fallback) = choose|t: Track, fallback: String|
            extracted(file, probe, t) && crate::metadata::is_ephemeral_ref(fallback@) && r == checked(
                t,
                fallback,
            );
        let (fresh, pictured, tagged) = choose|fresh: Track, pictured: Track, tagged: Track|
            is_fresh(fresh, file) && visuals_applied(fresh, probe.visuals@, pictured) && tags_applied(
                pictured,
                probe.tags@,
                tagged,
            ) && t == (Track { duration_seconds: probe.duration_seconds, ..tagged });
        assert(t.title == tagged.title);
        assert(t.title@.len() == 0 || t.title@ == UNSET@);
        assert(poor_metadata(t));
    }
}

/// After a track upsert, every node the track resolves to is linked from
/// every node the library resolves to, and carries the track's size and,
/// when known, its duration: the values the library's aggregation sums.
#[verifier::rlimit(40)]
pub proof fn lemma_track_linked_with_totals(g: Graph, lib: Seq<char>, t: Track, hl: nat, ht: nat)
    requires
        handles(g, track_bindings(lib, t), 0).contains(hl),
        handles(
            g,
            track_bindings(lib, t),
            (2 + t.artist_ref@.len() + album_bindings(t).len()) as int,
        ).contains(ht),
    ensures
        ({
            let g1 = apply(g, track_bindings(lib, t), track_nquads(lib, t));
            &&& g1.triples.contains((hl, LIBRARY_TRACK@, Stored::Node(ht)))
            &&& g1.triples.contains((ht, TRACK_SIZE@, Stored::Text(decimal(t.file_size as nat))))
            &&& (t.duration_seconds matches Some(d) ==> g1.triples.contains(
                (ht, TRACK_DURATION@, Stored::Text(decimal(d as nat))),
            ))
        }),
{
    lemma_track_bindings_shape(lib, t);
    let bs = track_bindings(lib, t);
    let qs = track_nquads(lib, t);
    let n = t.artist_ref@.len() as int;
    let a = album_bindings(t).len() as int;
    let ti = 2 + n + a;
    assert(env(g, bs, VAR_LIBRARY@).contains(hl)) by {
        assert(bs[0].var == VAR_LIBRARY@ && handles(g, bs, 0).contains(hl));
    }
    assert(env(g, bs, VAR_TRACK@).contains(ht)) by {
        assert(bs[ti].var == VAR_TRACK@ && handles(g, bs, ti).contains(ht));
    }
    let refs = views(t.artist_ref@);
    let sa = library_link(lib);
    let sb = artist_nquads(refs, t.artist@);
    let sc = album_nquads(t);
    let sd = recording_nquads(t);
    let se = audio_nquads(t);
    assert(qs == sa + sb + sc + sd + se);
    lemma_artist_statements(refs, t.artist@);
    let c = sc.len() as int;
    let d = sd.len() as int;
    let link = (hl, LIBRARY_TRACK@, Stored::Node(ht));
    assert(qs[2] == sa[2]);
    assert(object_matches(g, bs, qs[2].object, link.2));
    assert(asserted(g, bs, qs).contains(link));
    let size = (ht, TRACK_SIZE@, Stored::Text(decimal(t.file_size as nat)));
    let k = 3 + 5 * n + c + d - 1;
    assert(qs[k] == sd[d - 1]);
    assert(asserted(g, bs, qs).contains(size));
    match t.duration_seconds {
        Some(dur) => {
            let dt = (ht, TRACK_DURATION@, Stored::Text(decimal(dur as nat)));
            assert(qs[3 + 5 * n + c + 5] == sd[5]);
            assert(asserted(g, bs, qs).contains(dt));
        },
        None => {},
    }
}

} // verus!
