//! Looking tracks up for the player: by text, by code (with the on-disk
//! fallback), at random, and the path of a code's video.
use vstd::prelude::*;
use crate::codes::{
    all_digits, codigo_variantes, normaliza_codigo, normalized, pad5, strip_zeros, variants,
};
use crate::store::{
    buscar_musicas_db, count_musicas_local, get_musica_by_codigo_db, has_code, musica_aleatoria_db,
    search_result, simple_of, track_with_code, LocalStore, MusicaSimple, MusicaSimpleV, MusicaV,
};
use crate::sync::{files_view, media_name, ArquivoLocal, ArquivoLocalV};
use crate::text::{joined, same_text, trim_of, trimmed};

verus! {

/// The first file at or after position `i` named `name`.
pub open spec fn find_file(fs: Seq<ArquivoLocalV>, name: Seq<char>, i: int) -> Option<ArquivoLocalV>
    decreases fs.len() - i,
{
    if i < 0 || i >= fs.len() {
        None
    } else if fs[i].nome == name {
        Some(fs[i])
    } else {
        find_file(fs, name, i + 1)
    }
}

/// The first of the forms `vs[k..]` that has a media file, with that file.
pub open spec fn first_file(fs: Seq<ArquivoLocalV>, vs: Seq<Seq<char>>, k: int) -> Option<
    (Seq<char>, ArquivoLocalV),
>
    decreases vs.len() - k,
{
    if k < 0 || k >= vs.len() {
        None
    } else {
        match find_file(fs, media_name(vs[k]), 0) {
            Some(f) => Some((vs[k], f)),
            None => first_file(fs, vs, k + 1),
        }
    }
}

pub open spec fn unknown_artist() -> Seq<char> {
    "Desconhecido"@
}

/// The track under the first of the forms `vs[k..]` that the index holds.
pub open spec fn first_indexed(ts: Seq<MusicaV>, vs: Seq<Seq<char>>, k: int) -> Option<MusicaV>
    decreases vs.len() - k,
{
    if k < 0 || k >= vs.len() {
        None
    } else {
        match track_with_code(ts, vs[k]) {
            Some(m) => Some(m),
            None => first_indexed(ts, vs, k + 1),
        }
    }
}

/// A code lookup: the code is first brought to its canonical form (a four- or
/// five-digit code padded to five digits), whose forms are then tried in order
/// (as it is, padded, stripped). The indexed track under the first form the
/// index holds; failing that, a bare entry for the first form that has a media
/// file; else nothing.
pub open spec fn lookup(ts: Seq<MusicaV>, fs: Seq<ArquivoLocalV>, c: Seq<char>) -> Option<MusicaSimpleV> {
    let vs = variants(normalized(c));
    match first_indexed(ts, vs, 0) {
        Some(m) => Some(simple_of(m)),
        None => match first_file(fs, vs, 0) {
            Some((v, f)) => Some(
                MusicaSimpleV { codigo: v, artista: unknown_artist(), titulo: v, arquivo: f.caminho },
            ),
            None => None,
        },
    }
}

/// The path of the media file for the first form of the code's canonical form
/// that has one; where none has, an error naming the canonical form.
pub open spec fn video_path(fs: Seq<ArquivoLocalV>, c: Seq<char>) -> Result<Seq<char>, Seq<char>> {
    match first_file(fs, variants(normalized(c)), 0) {
        Some((_v, f)) => Ok(f.caminho),
        None => Err("Video not found: "@ + normalized(c)),
    }
}

pub open spec fn opt_simple(o: Option<MusicaSimple>) -> Option<MusicaSimpleV> {
    match o {
        Some(m) => Some(m@),
        None => None,
    }
}

fn find_file_exec(fs: &Vec<ArquivoLocal>, name: &str) -> (r: Option<usize>)
    ensures
        match r {
            Some(i) => i < fs@.len() && find_file(files_view(fs@), name@, 0) == Some(fs@[i as int]@),
            None => find_file(files_view(fs@), name@, 0) is None,
        },
{
    let ghost v = files_view(fs@);
    let mut i: usize = 0;
    while i < fs.len()
        invariant
            v == files_view(fs@),
            i <= fs.len(),
            find_file(v, name@, 0) == find_file(v, name@, i as int),
        decreases fs.len() - i,
    {
        assert(v[i as int] == fs@[i as int]@);
        if same_text(fs[i].nome.as_str(), name) {
            return Some(i);
        }
        i = i + 1;
    }
    None
}

proof fn lemma_first_file_skip(fs: Seq<ArquivoLocalV>, vs: Seq<Seq<char>>, k: int)
    requires
        0 <= k,
        forall|j: int| 0 <= j < k && j < vs.len() ==> find_file(fs, media_name(#[trigger] vs[j]), 0) is None,
    ensures
        first_file(fs, vs, 0) == first_file(fs, vs, k),
    decreases k,
{
    if k > 0 {
        lemma_first_file_skip(fs, vs, k - 1);
        if k - 1 < vs.len() {
            assert(find_file(fs, media_name(vs[k - 1]), 0) is None);
        }
    }
}

/// The first form of `codigo` with a media file: the form and the file's position.
fn first_file_exec(fs: &Vec<ArquivoLocal>, codigo: &str) -> (r: Option<(String, usize)>)
    ensures
        match first_file(files_view(fs@), variants(codigo@), 0) {
            Some((v, f)) => r matches Some((s, i)) && s@ == v && i < fs@.len() && fs@[i as int]@ == f,
            None => r is None,
        },
{
    let ghost fv = files_view(fs@);
    let vs = codigo_variantes(codigo);
    let ghost dv = vs.deep_view();
    let mut k: usize = 0;
    while k < vs.len()
        invariant
            fv == files_view(fs@),
            dv == vs.deep_view(),
            dv == variants(codigo@),
            k <= vs.len(),
            forall|j: int| 0 <= j < k ==> find_file(fv, media_name(#[trigger] dv[j]), 0) is None,
        decreases vs.len() - k,
    {
        assert(dv[k as int] == vs@[k as int]@);
        let name = joined(vs[k].as_str(), ".mp4");
        match find_file_exec(fs, name.as_str()) {
            Some(i) => {
                proof {
                    lemma_first_file_skip(fv, dv, k as int);
                }
                return Some((vs[k].clone(), i));
            },
            None => {},
        }
        k = k + 1;
    }
    proof {
        lemma_first_file_skip(fv, dv, k as int);
    }
    None
}

proof fn lemma_first_indexed_skip(ts: Seq<MusicaV>, vs: Seq<Seq<char>>, k: int)
    requires
        0 <= k,
        forall|j: int| 0 <= j < k && j < vs.len() ==> track_with_code(ts, #[trigger] vs[j]) is None,
    ensures
        first_indexed(ts, vs, 0) == first_indexed(ts, vs, k),
    decreases k,
{
    if k > 0 {
        lemma_first_indexed_skip(ts, vs, k - 1);
        if k - 1 < vs.len() {
            assert(track_with_code(ts, vs[k - 1]) is None);
        }
    }
}

/// The indexed track under the first form of `codigo` the index holds.
fn first_indexed_exec(store: &LocalStore, codigo: &str) -> (r: Option<MusicaSimple>)
    ensures
        match first_indexed(store@.musicas, variants(codigo@), 0) {
            Some(m) => r is Some && r->0@ == simple_of(m),
            None => r is None,
        },
{
    let ghost ts = store@.musicas;
    let vs = codigo_variantes(codigo);
    let ghost dv = vs.deep_view();
    let mut k: usize = 0;
    while k < vs.len()
        invariant
            ts == store@.musicas,
            dv == vs.deep_view(),
            dv == variants(codigo@),
            k <= vs.len(),
            forall|j: int| 0 <= j < k ==> track_with_code(ts, #[trigger] dv[j]) is None,
        decreases vs.len() - k,
    {
        assert(dv[k as int] == vs@[k as int]@);
        match get_musica_by_codigo_db(store, vs[k].as_str()) {
            Some(m) => {
                proof {
                    lemma_first_indexed_skip(ts, dv, k as int);
                }
                return Some(m);
            },
            None => {},
        }
        k = k + 1;
    }
    proof {
        lemma_first_indexed_skip(ts, dv, k as int);
    }
    None
}

/// Tracks matching `query`, given `aparado`, the query trimmed: none where
/// that has under two characters.
pub fn buscar_musicas_aparado(store: &LocalStore, query: &str, aparado: &str) -> (r: Vec<MusicaSimple>)
    ensures
        aparado@.len() < 2 ==> r@.len() == 0,
        aparado@.len() >= 2 ==> r@.map_values(|s: MusicaSimple| s@) == search_result(
            store@.musicas,
            query@,
        ),
{
    if aparado.unicode_len() < 2 {
        return Vec::new();
    }
    buscar_musicas_db(store, query)
}

/// Tracks matching `query`; none for a query under two characters once trimmed.
pub fn buscar_musicas(store: &LocalStore, query: &str) -> (r: Vec<MusicaSimple>)
    ensures
        trim_of(query@).len() < 2 ==> r@.len() == 0,
        trim_of(query@).len() >= 2 ==> r@.map_values(|s: MusicaSimple| s@) == search_result(
            store@.musicas,
            query@,
        ),
{
    buscar_musicas_aparado(store, query, trimmed(query))
}

/// The track for an already trimmed code; see `lookup`. `arquivos` lists the
/// media directory.
pub fn resolve_codigo(store: &LocalStore, arquivos: &Vec<ArquivoLocal>, codigo: &str) -> (r: Option<
    MusicaSimple,
>)
    ensures
        opt_simple(r) == lookup(store@.musicas, files_view(arquivos@), codigo@),
{
    let n = normaliza_codigo(codigo);
    let c = n.as_str();
    match first_indexed_exec(store, c) {
        Some(m) => Some(m),
        None => match first_file_exec(arquivos, c) {
            Some((v, i)) => {
                proof {
                    reveal_strlit("Desconhecido");
                }
                Some(
                    MusicaSimple {
                        codigo: v.clone(),
                        artista: "Desconhecido".to_string(),
                        titulo: v,
                        arquivo: arquivos[i].caminho.clone(),
                    },
                )
            },
            None => None,
        },
    }
}

/// The track for a typed code: the code trimmed, then `resolve_codigo`.
pub fn get_musica_by_codigo(store: &LocalStore, arquivos: &Vec<ArquivoLocal>, codigo: &str) -> (r:
    Option<MusicaSimple>)
    ensures
        opt_simple(r) == lookup(store@.musicas, files_view(arquivos@), trim_of(codigo@)),
{
    resolve_codigo(store, arquivos, trimmed(codigo))
}

/// The video path of an already trimmed code; see `video_path`.
pub fn video_do_codigo(arquivos: &Vec<ArquivoLocal>, codigo: &str) -> (r: Result<String, String>)
    ensures
        match video_path(files_view(arquivos@), codigo@) {
            Ok(p) => r matches Ok(s) && s@ == p,
            Err(e) => r matches Err(s) && s@ == e,
        },
{
    let n = normaliza_codigo(codigo);
    match first_file_exec(arquivos, n.as_str()) {
        Some((_v, i)) => Ok(arquivos[i].caminho.clone()),
        None => Err(joined("Video not found: ", n.as_str())),
    }
}

/// The path of a typed code's video: the code trimmed, then `video_do_codigo`.
pub fn get_video_path(arquivos: &Vec<ArquivoLocal>, codigo: &str) -> (r: Result<String, String>)
    ensures
        match video_path(files_view(arquivos@), trim_of(codigo@)) {
            Ok(p) => r matches Ok(s) && s@ == p,
            Err(e) => r matches Err(s) && s@ == e,
        },
{
    video_do_codigo(arquivos, trimmed(codigo))
}

/// A code drawn from the index by `sorteio`; see `musica_aleatoria_db`.
pub fn musica_aleatoria(store: &LocalStore, sorteio: u64) -> (r: Option<String>)
    ensures
        store@.musicas.len() == 0 ==> r is None,
        store@.musicas.len() > 0 ==> r is Some && r->0@ == store@.musicas[(sorteio as int)
            % (store@.musicas.len() as int)].codigo,
{
    musica_aleatoria_db(store, sorteio)
}

/// How many tracks the index holds.
pub fn get_all_musicas_count(store: &LocalStore) -> (r: u64)
    ensures
        r == store@.musicas.len(),
{
    count_musicas_local(store)
}

/// The forms of a four-digit code without a leading zero, and of its padded
/// form: each list holds the other code, the code itself coming first.
proof fn lemma_four_digit_forms(s: Seq<char>)
    requires
        all_digits(s),
        s.len() == 4,
        s[0] != '0',
    ensures
        variants(s) == seq![s, pad5(s)],
        variants(pad5(s)) == seq![pad5(s), s],
{
    let p = pad5(s);
    assert(p.len() == 5);
    assert(s != p);
    assert(strip_zeros(s) == s);
    assert(p[0] == '0');
    assert(p.drop_first() =~= s);
    assert(strip_zeros(p) == strip_zeros(p.drop_first()));
    assert(all_digits(p)) by {
        assert forall|i: int| 0 <= i < p.len() implies crate::codes::is_digit(#[trigger] p[i]) by {
            if i >= 1 {
                assert(p[i] == s[i - 1]);
            }
        }
    }
    assert(pad5(p) == p);
}

/// The canonical form of a code is its own canonical form.
proof fn lemma_normalized_idempotent(c: Seq<char>)
    ensures
        normalized(normalized(c)) == normalized(c),
{
    if all_digits(c) && 4 <= c.len() <= 5 {
        let p = pad5(c);
        assert(all_digits(p)) by {
            assert forall|i: int| 0 <= i < p.len() implies crate::codes::is_digit(#[trigger] p[i]) by {
                if c.len() < 5 && i >= 5 - c.len() {
                    assert(p[i] == c[i - (5 - c.len())]);
                }
            }
        }
    }
}

/// Code matching does not depend on which form is typed: a code and its
/// canonical form find the same track and the same video; in particular a
/// four-digit code and its zero-padded five-digit form do. A track stored under
/// the padded form is what both find, and so is one stored under a four-digit
/// code without a leading zero where the padded form is not stored.
pub proof fn lemma_lookup_forms_agree(ts: Seq<MusicaV>, fs: Seq<ArquivoLocalV>, c: Seq<char>)
    ensures
        lookup(ts, fs, c) == lookup(ts, fs, normalized(c)),
        video_path(fs, c) == video_path(fs, normalized(c)),
        all_digits(c) && c.len() == 4 ==> lookup(ts, fs, c) == lookup(ts, fs, pad5(c)),
        all_digits(c) && c.len() == 4 && has_code(ts, pad5(c)) ==> lookup(ts, fs, c) == Some(
            simple_of(track_with_code(ts, pad5(c))->0),
        ),
        all_digits(c) && c.len() == 4 && c[0] != '0' && has_code(ts, c) && !has_code(ts, pad5(c))
            ==> lookup(ts, fs, c) == Some(simple_of(track_with_code(ts, c)->0)),
{
    lemma_normalized_idempotent(c);
    if all_digits(c) && c.len() == 4 {
        let p = pad5(c);
        assert(normalized(c) == p);
        let vs = variants(p);
        assert(vs[0] == p);
        if has_code(ts, p) {
            assert(first_indexed(ts, vs, 0) == track_with_code(ts, p));
        }
        if c[0] != '0' && has_code(ts, c) && !has_code(ts, p) {
            lemma_four_digit_forms(c);
            let v2 = seq![p, c];
            assert(v2[0] == p && v2[1] == c);
            assert(first_indexed(ts, v2, 1) == track_with_code(ts, c));
            assert(first_indexed(ts, v2, 0) == first_indexed(ts, v2, 1));
        }
    }
}

} // verus!
