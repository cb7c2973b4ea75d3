//! The media synchronizer: which catalog entries still need downloading, how a
//! batch is taken and settled, and how orphan files are attributed to the catalog.
use vstd::prelude::*;
use crate::codes::{codigo_variantes, variants};
use crate::remote::{SupabaseMusica, SupabaseMusicaV};
use crate::store::{
    copy_opt_text, count_musicas_local, has_code, insert_musica, musica_existe, replaced,
    size_sum, storage_used, LocalStore, Musica, MusicaV,
};
use crate::text::{joined, same_text};

verus! {

pub const DEFAULT_BATCH: i32 = 3;

/// A file found in the media directory: its name, its full path, its size in bytes.
#[derive(Clone, Debug)]
pub struct ArquivoLocal {
    pub nome: String,
    pub caminho: String,
    pub tamanho: i64,
}

pub struct ArquivoLocalV {
    pub nome: Seq<char>,
    pub caminho: Seq<char>,
    pub tamanho: i64,
}

impl View for ArquivoLocal {
    type V = ArquivoLocalV;

    open spec fn view(&self) -> ArquivoLocalV {
        ArquivoLocalV { nome: self.nome@, caminho: self.caminho@, tamanho: self.tamanho }
    }
}

pub open spec fn files_view(fs: Seq<ArquivoLocal>) -> Seq<ArquivoLocalV> {
    fs.map_values(|f: ArquivoLocal| f@)
}

pub open spec fn catalog_view(cat: Seq<SupabaseMusica>) -> Seq<SupabaseMusicaV> {
    cat.map_values(|m: SupabaseMusica| m@)
}

pub open spec fn texts_view(es: Seq<String>) -> Seq<Seq<char>> {
    es.map_values(|e: String| e@)
}

/// The name of the media file kept for a code.
pub open spec fn media_name(code: Seq<char>) -> Seq<char> {
    code + ".mp4"@
}

pub open spec fn has_file(fs: Seq<ArquivoLocalV>, name: Seq<char>) -> bool {
    exists|i: int| 0 <= i < fs.len() && (#[trigger] fs[i]).nome == name
}

/// A media file: a name of the form `<code>.mp4` with a non-empty code.
pub open spec fn is_media(nome: Seq<char>) -> bool {
    nome.len() > 4 && nome.subrange(nome.len() - 4, nome.len() as int) == ".mp4"@
}

pub open spec fn stem(nome: Seq<char>) -> Seq<char> {
    nome.subrange(0, nome.len() - 4)
}

/// An entry still to be downloaded: its file is missing or the index lacks its code.
pub open spec fn is_pending(ts: Seq<MusicaV>, fs: Seq<ArquivoLocalV>, m: SupabaseMusicaV) -> bool {
    !has_file(fs, media_name(m.codigo)) || !has_code(ts, m.codigo)
}

/// The pending entries among the first `n` of the catalog, in catalog order.
pub open spec fn pending_prefix(
    ts: Seq<MusicaV>,
    fs: Seq<ArquivoLocalV>,
    cat: Seq<SupabaseMusicaV>,
    n: int,
) -> Seq<SupabaseMusicaV>
    decreases n,
{
    if n <= 0 {
        Seq::empty()
    } else if is_pending(ts, fs, cat[n - 1]) {
        pending_prefix(ts, fs, cat, n - 1).push(cat[n - 1])
    } else {
        pending_prefix(ts, fs, cat, n - 1)
    }
}

pub open spec fn pending(ts: Seq<MusicaV>, fs: Seq<ArquivoLocalV>, cat: Seq<SupabaseMusicaV>) -> Seq<
    SupabaseMusicaV,
> {
    pending_prefix(ts, fs, cat, cat.len() as int)
}

/// How many pending entries one batch takes: the size asked (three when none is
/// given), all of them for a negative size.
pub open spec fn batch_len(size: Option<i32>, available: nat) -> nat {
    let b: int = match size {
        Some(x) => x as int,
        None => DEFAULT_BATCH as int,
    };
    if b < 0 || b >= available {
        available
    } else {
        b as nat
    }
}

/// Progress of a download batch: entries downloaded and indexed, entries still
/// pending after them, and one message per entry that failed.
#[derive(Clone, Debug)]
pub struct DownloadResult {
    pub downloaded: i32,
    pub remaining: i64,
    pub errors: Vec<String>,
}

/// A batch to download, and its result before any entry was tried.
#[derive(Clone, Debug)]
pub struct LoteDownload {
    pub lote: Vec<SupabaseMusica>,
    pub resultado: DownloadResult,
}

/// The outcome of fetching one entry's file.
#[derive(Clone, Debug)]
pub enum Download {
    Falhou { arquivo: String, erro: String },
    Salvo { arquivo: String, bytes: i64 },
}

pub open spec fn downloaded_record(m: SupabaseMusicaV, arquivo: Seq<char>, bytes: i64) -> MusicaV {
    MusicaV {
        id: m.id,
        codigo: m.codigo,
        artista: m.artista,
        titulo: m.titulo,
        arquivo,
        nome_arquivo: m.nome_arquivo,
        tamanho: Some(bytes),
        duracao: m.duracao,
        user_id: m.user_id,
    }
}

fn has_file_exec(fs: &Vec<ArquivoLocal>, name: &str) -> (r: bool)
    ensures
        r == has_file(files_view(fs@), name@),
{
    let ghost v = files_view(fs@);
    let mut i: usize = 0;
    while i < fs.len()
        invariant
            v == files_view(fs@),
            i <= fs.len(),
            forall|j: int| 0 <= j < i ==> (#[trigger] v[j]).nome != name@,
        decreases fs.len() - i,
    {
        assert(v[i as int] == fs@[i as int]@);
        if same_text(fs[i].nome.as_str(), name) {
            return true;
        }
        i = i + 1;
    }
    false
}

fn record_of(m: &SupabaseMusica, arquivo: String, tamanho: i64) -> (r: Musica)
    ensures
        r@ == downloaded_record(m@, arquivo@, tamanho),
{
    Musica {
        id: m.id.clone(),
        codigo: m.codigo.clone(),
        artista: m.artista.clone(),
        titulo: m.titulo.clone(),
        arquivo,
        nome_arquivo: copy_opt_text(&m.nome_arquivo),
        tamanho: Some(tamanho),
        duracao: m.duracao,
        user_id: copy_opt_text(&m.user_id),
    }
}

/// The batch to download now: the first pending entries of the catalog, as many
/// as `size` asks; `remaining` starts at the number of pending entries.
pub fn download_batch(
    store: &LocalStore,
    remoto: &Vec<SupabaseMusica>,
    arquivos: &Vec<ArquivoLocal>,
    size: Option<i32>,
) -> (r: LoteDownload)
    requires
        remoto@.len() <= i64::MAX,
    ensures
        ({
            let p = pending(store@.musicas, files_view(arquivos@), catalog_view(remoto@));
            &&& catalog_view(r.lote@) == p.take(batch_len(size, p.len()) as int)
            &&& r.resultado.downloaded == 0
            &&& r.resultado.remaining == p.len()
            &&& r.resultado.errors@.len() == 0
        }),
{
    let ghost ts = store@.musicas;
    let ghost fs = files_view(arquivos@);
    let ghost cat = catalog_view(remoto@);
    let mut pend: Vec<SupabaseMusica> = Vec::new();
    let mut i: usize = 0;
    while i < remoto.len()
        invariant
            ts == store@.musicas,
            fs == files_view(arquivos@),
            cat == catalog_view(remoto@),
            i <= remoto.len(),
            catalog_view(pend@) == pending_prefix(ts, fs, cat, i as int),
            pend@.len() <= i,
        decreases remoto.len() - i,
    {
        let m = &remoto[i];
        assert(cat[i as int] == m@);
        let ghost before = catalog_view(pend@);
        let name = joined(m.codigo.as_str(), ".mp4");
        if !has_file_exec(arquivos, name.as_str()) || !musica_existe(store, m.codigo.as_str()) {
            pend.push(m.copia());
            assert(catalog_view(pend@) =~= before.push(cat[i as int]));
        }
        i = i + 1;
    }
    let ghost p = catalog_view(pend@);
    let total = pend.len();
    let b: i32 = match size {
        Some(x) => x,
        None => DEFAULT_BATCH,
    };
    let k: usize = if b < 0 || b as usize >= total {
        total
    } else {
        b as usize
    };
    let mut lote: Vec<SupabaseMusica> = Vec::new();
    let mut j: usize = 0;
    while j < k
        invariant
            k <= total,
            total == pend@.len(),
            p == catalog_view(pend@),
            j <= k,
            catalog_view(lote@) == p.take(j as int),
        decreases k - j,
    {
        assert(p[j as int] == pend@[j as int]@);
        let ghost before = catalog_view(lote@);
        lote.push(pend[j].copia());
        assert(catalog_view(lote@) =~= before.push(p[j as int]));
        j = j + 1;
        assert(catalog_view(lote@) =~= p.take(j as int));
    }
    LoteDownload {
        lote,
        resultado: DownloadResult { downloaded: 0, remaining: total as i64, errors: Vec::new() },
    }
}

/// After an entry's file was fetched: `Ok` with the record to write into the
/// index, or, where the fetch failed, `Err` with the destination path, to be
/// deleted in case the fetch left part of a file there, and the failure added to
/// the errors.
pub fn apos_download(resultado: &mut DownloadResult, entrada: &SupabaseMusica, baixado: Download) -> (r:
    Result<Musica, String>)
    ensures
        match baixado {
            Download::Falhou { arquivo, erro } => r matches Err(p) && p@ == arquivo@
                && final(resultado).downloaded == old(resultado).downloaded
                && final(resultado).remaining == old(resultado).remaining && texts_view(
                final(resultado).errors@,
            ) == texts_view(old(resultado).errors@).push(entrada.codigo@ + ": "@ + erro@),
            Download::Salvo { arquivo, bytes } => r matches Ok(m) && m@ == downloaded_record(
                entrada@,
                arquivo@,
                bytes,
            ) && *final(resultado) == *old(resultado),
        },
{
    match baixado {
        Download::Falhou { arquivo, erro } => {
            let head = joined(entrada.codigo.as_str(), ": ");
            let msg = joined(head.as_str(), erro.as_str());
            let ghost before = texts_view(resultado.errors@);
            resultado.errors.push(msg);
            assert(texts_view(resultado.errors@) =~= before.push(entrada.codigo@ + ": "@ + erro@));
            Err(arquivo)
        },
        Download::Salvo { arquivo, bytes } => Ok(record_of(entrada, arquivo, bytes)),
    }
}

/// After the host tried to write a downloaded entry's record: on success the
/// index holds it and the counts move on; on failure the error is added and the
/// path of the downloaded file is returned, to be deleted, so that no file is
/// left whose code the index lacks.
pub fn apos_gravacao(
    resultado: &mut DownloadResult,
    store: &mut LocalStore,
    registro: &Musica,
    gravado: &Result<(), String>,
) -> (r: Option<String>)
    requires
        old(store).wf(),
        old(resultado).downloaded < i32::MAX,
        old(resultado).remaining > i64::MIN,
    ensures
        final(store).wf(),
        match gravado {
            Ok(_) => r is None && has_code(final(store)@.musicas, registro@.codigo)
                && final(store)@.musicas == replaced(old(store)@.musicas, registro@)
                && final(resultado).downloaded == old(resultado).downloaded + 1
                && final(resultado).remaining == old(resultado).remaining - 1
                && final(resultado).errors@ == old(resultado).errors@,
            Err(e) => r is Some && r->0@ == registro@.arquivo && final(store)@ == old(store)@
                && final(resultado).downloaded == old(resultado).downloaded
                && final(resultado).remaining == old(resultado).remaining && texts_view(
                final(resultado).errors@,
            ) == texts_view(old(resultado).errors@).push(
                registro@.codigo + ": DB error: "@ + e@,
            ),
        },
{
    match gravado {
        Ok(_) => {
            insert_musica(store, registro);
            proof {
                lemma_replaced_has(old(store)@.musicas, registro@);
            }
            resultado.downloaded = resultado.downloaded + 1;
            resultado.remaining = resultado.remaining - 1;
            None
        },
        Err(e) => {
            let head = joined(registro.codigo.as_str(), ": DB error: ");
            let msg = joined(head.as_str(), e.as_str());
            let ghost before = texts_view(resultado.errors@);
            resultado.errors.push(msg);
            assert(texts_view(resultado.errors@) =~= before.push(
                registro@.codigo + ": DB error: "@ + e@,
            ));
            Some(registro.arquivo.clone())
        },
    }
}

proof fn lemma_find_last(ts: Seq<MusicaV>, c: Seq<char>, i: int)
    requires
        0 <= i < ts.len(),
        ts[ts.len() - 1].codigo == c,
    ensures
        crate::store::find_from(ts, c, i) is Some,
    decreases ts.len() - i,
{
    if ts[i].codigo != c {
        lemma_find_last(ts, c, i + 1);
    }
}

/// After a write of `m`, the index holds `m`'s code.
pub proof fn lemma_replaced_has(ts: Seq<MusicaV>, m: MusicaV)
    ensures
        has_code(replaced(ts, m), m.codigo),
{
    let r = replaced(ts, m);
    lemma_find_last(r, m.codigo, 0);
}

/// A downloaded file never outlives its record: the record built for it names
/// the file's path, and once written the index holds the entry's code; where the
/// write fails, `apos_gravacao` hands that same path back for deletion.
pub proof fn lemma_download_leaves_no_orphan(
    ts: Seq<MusicaV>,
    m: SupabaseMusicaV,
    arquivo: Seq<char>,
    bytes: i64,
)
    ensures
        downloaded_record(m, arquivo, bytes).arquivo == arquivo,
        downloaded_record(m, arquivo, bytes).codigo == m.codigo,
        has_code(replaced(ts, downloaded_record(m, arquivo, bytes)), m.codigo),
{
    lemma_replaced_has(ts, downloaded_record(m, arquivo, bytes));
}

proof fn lemma_kept_contains(ts: Seq<MusicaV>, m: MusicaV, n: int, k: int)
    requires
        0 <= k < n <= ts.len(),
        ts[k].codigo != m.codigo,
        ts[k].id != m.id,
    ensures
        crate::store::kept(ts, m, n).contains(ts[k]),
    decreases n,
{
    let prev = crate::store::kept(ts, m, n - 1);
    if k < n - 1 {
        lemma_kept_contains(ts, m, n - 1, k);
        let idx = choose|idx: int| 0 <= idx < prev.len() && prev[idx] == ts[k];
        if ts[n - 1].codigo != m.codigo && ts[n - 1].id != m.id {
            assert(crate::store::kept(ts, m, n)[idx] == ts[k]);
        }
    } else {
        assert(crate::store::kept(ts, m, n)[prev.len() as int] == ts[k]);
    }
}

proof fn lemma_find_some(ts: Seq<MusicaV>, c: Seq<char>, i: int, k: int)
    requires
        0 <= i <= k < ts.len(),
        ts[k].codigo == c,
    ensures
        crate::store::find_from(ts, c, i) is Some,
    decreases k - i,
{
    if ts[i].codigo != c {
        lemma_find_some(ts, c, i + 1, k);
    }
}

/// The index after a download batch over the entries `lote[..n]`: entry `i`'s
/// file was fetched to `arquivos[i]` (`bytes[i]` long) where `salvo[i]`, and the
/// host's write of its record succeeded where `gravado[i]`.
pub open spec fn batch_pass(
    ts: Seq<MusicaV>,
    lote: Seq<SupabaseMusicaV>,
    arquivos: Seq<Seq<char>>,
    bytes: Seq<i64>,
    salvo: Seq<bool>,
    gravado: Seq<bool>,
    n: int,
) -> Seq<MusicaV>
    decreases n,
{
    if n <= 0 {
        ts
    } else {
        let prev = batch_pass(ts, lote, arquivos, bytes, salvo, gravado, n - 1);
        if salvo[n - 1] && gravado[n - 1] {
            replaced(prev, downloaded_record(lote[n - 1], arquivos[n - 1], bytes[n - 1]))
        } else {
            prev
        }
    }
}

/// After a download batch whose entries have distinct codes and ids, the index
/// holds the code of every entry whose file was fetched and whose record was
/// written. Every other fetched or partly fetched file is handed back for
/// deletion by `apos_download` or `apos_gravacao`, so the batch leaves no file
/// whose code the index lacks.
pub proof fn lemma_batch_leaves_no_orphan(
    ts: Seq<MusicaV>,
    lote: Seq<SupabaseMusicaV>,
    arquivos: Seq<Seq<char>>,
    bytes: Seq<i64>,
    salvo: Seq<bool>,
    gravado: Seq<bool>,
    n: int,
)
    requires
        0 <= n <= lote.len(),
        n <= arquivos.len() && n <= bytes.len() && n <= salvo.len() && n <= gravado.len(),
        forall|i: int, j: int|
            0 <= i < n && 0 <= j < n && i != j ==> (#[trigger] lote[i]).codigo != (#[trigger] lote[j]).codigo
                && lote[i].id != lote[j].id,
    ensures
        forall|i: int|
            0 <= i < n && #[trigger] salvo[i] && gravado[i] ==> batch_pass(
                ts,
                lote,
                arquivos,
                bytes,
                salvo,
                gravado,
                n,
            ).contains(downloaded_record(lote[i], arquivos[i], bytes[i])) && has_code(
                batch_pass(ts, lote, arquivos, bytes, salvo, gravado, n),
                lote[i].codigo,
            ),
    decreases n,
{
    let r = batch_pass(ts, lote, arquivos, bytes, salvo, gravado, n);
    if n > 0 {
        lemma_batch_leaves_no_orphan(ts, lote, arquivos, bytes, salvo, gravado, n - 1);
        let prev = batch_pass(ts, lote, arquivos, bytes, salvo, gravado, n - 1);
        assert forall|i: int| 0 <= i < n && #[trigger] salvo[i] && gravado[i] implies r.contains(
            downloaded_record(lote[i], arquivos[i], bytes[i]),
        ) && has_code(r, lote[i].codigo) by {
            let rec = downloaded_record(lote[i], arquivos[i], bytes[i]);
            if salvo[n - 1] && gravado[n - 1] {
                let m = downloaded_record(lote[n - 1], arquivos[n - 1], bytes[n - 1]);
                if i == n - 1 {
                    lemma_replaced_has(prev, m);
                    assert(r[r.len() - 1] == m);
                } else {
                    assert(prev.contains(rec));
                    let k = choose|k: int| 0 <= k < prev.len() && prev[k] == rec;
                    lemma_kept_contains(prev, m, prev.len() as int, k);
                    let kv = crate::store::kept(prev, m, prev.len() as int);
                    let idx = choose|idx: int| 0 <= idx < kv.len() && kv[idx] == rec;
                    assert(r[idx] == rec);
                    lemma_find_some(r, rec.codigo, 0, idx);
                }
            } else {
                assert(r == prev);
                let k = choose|k: int| 0 <= k < prev.len() && prev[k] == rec;
                lemma_find_some(r, rec.codigo, 0, k);
            }
        }
    }
}

/// Whether the index holds the code under any of its forms.
pub open spec fn in_index(ts: Seq<MusicaV>, code: Seq<char>) -> bool {
    exists|k: int| 0 <= k < variants(code).len() && has_code(ts, #[trigger] variants(code)[k])
}

/// The first catalog entry at or after position `i` whose code is `c`.
pub open spec fn find_entry(cat: Seq<SupabaseMusicaV>, c: Seq<char>, i: int) -> Option<
    SupabaseMusicaV,
>
    decreases cat.len() - i,
{
    if i < 0 || i >= cat.len() {
        None
    } else if cat[i].codigo == c {
        Some(cat[i])
    } else {
        find_entry(cat, c, i + 1)
    }
}

/// The catalog entry for the first of the forms `vs[k..]` that the catalog has.
pub open spec fn match_from(cat: Seq<SupabaseMusicaV>, vs: Seq<Seq<char>>, k: int) -> Option<
    SupabaseMusicaV,
>
    decreases vs.len() - k,
{
    if k < 0 || k >= vs.len() {
        None
    } else {
        match find_entry(cat, vs[k], 0) {
            Some(m) => Some(m),
            None => match_from(cat, vs, k + 1),
        }
    }
}

/// The catalog entry a code stands for: exact form first, then padded, then stripped.
pub open spec fn catalog_match(cat: Seq<SupabaseMusicaV>, code: Seq<char>) -> Option<SupabaseMusicaV> {
    match_from(cat, variants(code), 0)
}

/// The record a reindex writes for a file: the media files whose code the index
/// lacks under every form, and that the catalog has, get the catalog's metadata,
/// the file's path and its size on disk; any other file gets none.
pub open spec fn reindex_step(ts: Seq<MusicaV>, f: ArquivoLocalV, cat: Seq<SupabaseMusicaV>) -> Option<
    MusicaV,
> {
    if !is_media(f.nome) || in_index(ts, stem(f.nome)) {
        None
    } else {
        match catalog_match(cat, stem(f.nome)) {
            Some(m) => Some(downloaded_record(m, f.caminho, f.tamanho)),
            None => None,
        }
    }
}

pub open spec fn media_count(fs: Seq<ArquivoLocalV>, n: int) -> int
    decreases n,
{
    if n <= 0 {
        0
    } else {
        media_count(fs, n - 1) + if is_media(fs[n - 1].nome) {
            1int
        } else {
            0int
        }
    }
}

/// Progress of a reindex pass: media files seen, records written, and one
/// message per failure.
#[derive(Clone, Debug)]
pub struct ReindexResult {
    pub total: i32,
    pub reindexed: i32,
    pub errors: Vec<String>,
}

fn media_stem(nome: &str) -> (r: Option<String>)
    ensures
        is_media(nome@) ==> r is Some && r->0@ == stem(nome@),
        !is_media(nome@) ==> r is None,
{
    let n = nome.unicode_len();
    if n <= 4 {
        return None;
    }
    let tail = nome.substring_char(n - 4, n);
    if same_text(tail, ".mp4") {
        Some(nome.substring_char(0, n - 4).to_string())
    } else {
        None
    }
}

fn media_count_exec(fs: &Vec<ArquivoLocal>) -> (r: i32)
    requires
        fs@.len() <= i32::MAX,
    ensures
        r == media_count(files_view(fs@), fs@.len() as int),
{
    let ghost v = files_view(fs@);
    let mut c: i32 = 0;
    let mut i: usize = 0;
    while i < fs.len()
        invariant
            v == files_view(fs@),
            fs@.len() <= i32::MAX,
            i <= fs.len(),
            c == media_count(v, i as int),
            0 <= c <= i,
        decreases fs.len() - i,
    {
        assert(v[i as int] == fs@[i as int]@);
        if media_stem(fs[i].nome.as_str()).is_some() {
            c = c + 1;
        }
        i = i + 1;
    }
    c
}

/// Starts a reindex pass over the media directory's files (`None` where there
/// is no such directory) with the catalog fetch's outcome. `Err` holds the final
/// result where the pass stops here: no directory, or no catalog to attribute
/// files with; `Ok` holds the starting result.
pub fn reindex_musicas(arquivos: &Option<Vec<ArquivoLocal>>, remoto: &Result<Vec<SupabaseMusica>, String>) -> (r:
    Result<ReindexResult, ReindexResult>)
    requires
        arquivos matches Some(fs) ==> fs@.len() <= i32::MAX,
    ensures
        match arquivos {
            None => r matches Err(x) && x.total == 0 && x.reindexed == 0 && x.errors@.len() == 0,
            Some(fs) => {
                let total = media_count(files_view(fs@), fs@.len() as int);
                match remoto {
                    Err(e) => r matches Err(x) && x.total == total && x.reindexed == 0 && texts_view(
                        x.errors@,
                    ) == seq!["Offline: "@ + e@],
                    Ok(_) => r matches Ok(x) && x.total == total && x.reindexed == 0
                        && x.errors@.len() == 0,
                }
            },
        },
{
    match arquivos {
        None => Err(ReindexResult { total: 0, reindexed: 0, errors: Vec::new() }),
        Some(fs) => {
            let total = media_count_exec(fs);
            match remoto {
                Err(e) => {
                    let mut errors: Vec<String> = Vec::new();
                    errors.push(joined("Offline: ", e.as_str()));
                    assert(texts_view(errors@) =~= seq!["Offline: "@ + e@]);
                    Err(ReindexResult { total, reindexed: 0, errors })
                },
                Ok(_) => Ok(ReindexResult { total, reindexed: 0, errors: Vec::new() }),
            }
        },
    }
}

fn in_index_exec(store: &LocalStore, code: &str) -> (r: bool)
    ensures
        r == in_index(store@.musicas, code@),
{
    let vs = codigo_variantes(code);
    let ghost dv = vs.deep_view();
    let mut k: usize = 0;
    while k < vs.len()
        invariant
            dv == vs.deep_view(),
            dv == variants(code@),
            k <= vs.len(),
            forall|j: int| 0 <= j < k ==> !has_code(store@.musicas, #[trigger] dv[j]),
        decreases vs.len() - k,
    {
        assert(dv[k as int] == vs@[k as int]@);
        if musica_existe(store, vs[k].as_str()) {
            return true;
        }
        k = k + 1;
    }
    false
}

fn find_entry_exec(cat: &Vec<SupabaseMusica>, c: &str) -> (r: Option<usize>)
    ensures
        match r {
            Some(i) => i < cat@.len() && find_entry(catalog_view(cat@), c@, 0) == Some(cat@[i as int]@),
            None => find_entry(catalog_view(cat@), c@, 0) is None,
        },
{
    let ghost v = catalog_view(cat@);
    let mut i: usize = 0;
    while i < cat.len()
        invariant
            v == catalog_view(cat@),
            i <= cat.len(),
            find_entry(v, c@, 0) == find_entry(v, c@, i as int),
        decreases cat.len() - i,
    {
        assert(v[i as int] == cat@[i as int]@);
        if same_text(cat[i].codigo.as_str(), c) {
            return Some(i);
        }
        i = i + 1;
    }
    None
}

proof fn lemma_match_skip(cat: Seq<SupabaseMusicaV>, vs: Seq<Seq<char>>, k: int)
    requires
        0 <= k,
        forall|j: int| 0 <= j < k && j < vs.len() ==> find_entry(cat, #[trigger] vs[j], 0) is None,
    ensures
        match_from(cat, vs, 0) == match_from(cat, vs, k),
    decreases k,
{
    if k > 0 {
        lemma_match_skip(cat, vs, k - 1);
        if k - 1 < vs.len() {
            assert(find_entry(cat, vs[k - 1], 0) is None);
        }
    }
}

fn catalog_match_exec(cat: &Vec<SupabaseMusica>, code: &str) -> (r: Option<usize>)
    ensures
        match r {
            Some(i) => i < cat@.len() && catalog_match(catalog_view(cat@), code@) == Some(cat@[i as int]@),
            None => catalog_match(catalog_view(cat@), code@) is None,
        },
{
    let ghost cv = catalog_view(cat@);
    let vs = codigo_variantes(code);
    let ghost dv = vs.deep_view();
    let mut k: usize = 0;
    while k < vs.len()
        invariant
            cv == catalog_view(cat@),
            dv == vs.deep_view(),
            dv == variants(code@),
            k <= vs.len(),
            forall|j: int| 0 <= j < k ==> find_entry(cv, #[trigger] dv[j], 0) is None,
        decreases vs.len() - k,
    {
        assert(dv[k as int] == vs@[k as int]@);
        match find_entry_exec(cat, vs[k].as_str()) {
            Some(i) => {
                proof {
                    lemma_match_skip(cv, dv, k as int);
                }
                return Some(i);
            },
            None => {},
        }
        k = k + 1;
    }
    proof {
        lemma_match_skip(cv, dv, k as int);
    }
    None
}

/// The record a reindex writes for one file, if any; see `reindex_step`.
pub fn reindex_arquivo(store: &LocalStore, arquivo: &ArquivoLocal, catalogo: &Vec<SupabaseMusica>) -> (r:
    Option<Musica>)
    ensures
        match reindex_step(store@.musicas, arquivo@, catalog_view(catalogo@)) {
            Some(m) => r is Some && r->0@ == m,
            None => r is None,
        },
{
    match media_stem(arquivo.nome.as_str()) {
        None => None,
        Some(code) => {
            if in_index_exec(store, code.as_str()) {
                return None;
            }
            match catalog_match_exec(catalogo, code.as_str()) {
                Some(i) => Some(record_of(&catalogo[i], arquivo.caminho.clone(), arquivo.tamanho)),
                None => None,
            }
        },
    }
}

/// After the host tried to write a reindexed record: on success the index holds
/// it and the count moves on; on failure the error is added.
pub fn apos_reindex(
    resultado: &mut ReindexResult,
    store: &mut LocalStore,
    registro: &Musica,
    gravado: &Result<(), String>,
)
    requires
        old(store).wf(),
        old(resultado).reindexed < i32::MAX,
    ensures
        final(store).wf(),
        final(resultado).total == old(resultado).total,
        match gravado {
            Ok(_) => final(store)@.musicas == replaced(old(store)@.musicas, registro@)
                && final(resultado).reindexed == old(resultado).reindexed + 1
                && final(resultado).errors@ == old(resultado).errors@,
            Err(e) => final(store)@ == old(store)@ && final(resultado).reindexed == old(
                resultado,
            ).reindexed && texts_view(final(resultado).errors@) == texts_view(
                old(resultado).errors@,
            ).push(registro@.codigo + ": "@ + e@),
        },
{
    match gravado {
        Ok(_) => {
            insert_musica(store, registro);
            resultado.reindexed = resultado.reindexed + 1;
        },
        Err(e) => {
            let head = joined(registro.codigo.as_str(), ": ");
            let msg = joined(head.as_str(), e.as_str());
            let ghost before = texts_view(resultado.errors@);
            resultado.errors.push(msg);
            assert(texts_view(resultado.errors@) =~= before.push(registro@.codigo + ": "@ + e@));
        },
    }
}

proof fn lemma_find_entry_code(cat: Seq<SupabaseMusicaV>, c: Seq<char>, i: int)
    requires
        find_entry(cat, c, i) is Some,
    ensures
        find_entry(cat, c, i)->0.codigo == c,
        exists|j: int| 0 <= j < cat.len() && cat[j] == find_entry(cat, c, i)->0,
    decreases cat.len() - i,
{
    if !(i < 0 || i >= cat.len()) && cat[i].codigo != c {
        lemma_find_entry_code(cat, c, i + 1);
    }
}

proof fn lemma_match_from_code(cat: Seq<SupabaseMusicaV>, vs: Seq<Seq<char>>, k: int)
    requires
        match_from(cat, vs, k) is Some,
    ensures
        exists|j: int| 0 <= j < vs.len() && match_from(cat, vs, k)->0.codigo == vs[j],
        exists|j: int| 0 <= j < cat.len() && cat[j] == match_from(cat, vs, k)->0,
    decreases vs.len() - k,
{
    if find_entry(cat, vs[k], 0) is Some {
        lemma_find_entry_code(cat, vs[k], 0);
    } else {
        lemma_match_from_code(cat, vs, k + 1);
    }
}

/// The catalog has an entry with this record's code and id.
pub open spec fn from_catalog(cat: Seq<SupabaseMusicaV>, r: MusicaV) -> bool {
    exists|j: int| 0 <= j < cat.len() && #[trigger] cat[j].codigo == r.codigo && cat[j].id == r.id
}

/// `c` is one of the forms of `code`.
pub open spec fn form_of(code: Seq<char>, c: Seq<char>) -> bool {
    exists|k: int| 0 <= k < variants(code).len() && #[trigger] variants(code)[k] == c
}

proof fn lemma_find_none(ts: Seq<MusicaV>, c: Seq<char>, i: int)
    requires
        0 <= i,
        crate::store::find_from(ts, c, i) is None,
    ensures
        forall|j: int| i <= j < ts.len() ==> (#[trigger] ts[j]).codigo != c,
    decreases ts.len() - i,
{
    if i < ts.len() {
        lemma_find_none(ts, c, i + 1);
    }
}

proof fn lemma_kept_subset(ts: Seq<MusicaV>, m: MusicaV, n: int)
    requires
        0 <= n <= ts.len(),
    ensures
        forall|a: int|
            0 <= a < crate::store::kept(ts, m, n).len() ==> ts.contains(
                #[trigger] crate::store::kept(ts, m, n)[a],
            ),
    decreases n,
{
    if n > 0 {
        lemma_kept_subset(ts, m, n - 1);
        let prev = crate::store::kept(ts, m, n - 1);
        let cur = crate::store::kept(ts, m, n);
        assert forall|a: int| 0 <= a < cur.len() implies ts.contains(#[trigger] cur[a]) by {
            if a < prev.len() {
                assert(cur[a] == prev[a]);
            } else {
                assert(cur[a] == ts[n - 1]);
            }
        }
    }
}

/// A reindex writes a record only for a media file that the catalog has under
/// one of the forms of the file's code, and the record carries that catalog
/// entry's code and id. Writing it adds that record alone, and keeps every track
/// with another id (none has its code). A file whose code the catalog lacks under
/// every form gets no record.
pub proof fn lemma_reindex_only_catalog(ts: Seq<MusicaV>, f: ArquivoLocalV, cat: Seq<SupabaseMusicaV>)
    ensures
        reindex_step(ts, f, cat) matches Some(rec) ==> {
            &&& is_media(f.nome) && from_catalog(cat, rec) && form_of(stem(f.nome), rec.codigo)
            &&& forall|k: int|
                0 <= k < replaced(ts, rec).len() ==> #[trigger] replaced(ts, rec)[k] == rec
                    || ts.contains(replaced(ts, rec)[k])
            &&& forall|i: int|
                0 <= i < ts.len() && (#[trigger] ts[i]).id != rec.id ==> replaced(ts, rec).contains(
                    ts[i],
                )
        },
        catalog_match(cat, stem(f.nome)) is None ==> reindex_step(ts, f, cat) is None,
{
    if reindex_step(ts, f, cat) is Some {
        let rec = reindex_step(ts, f, cat)->0;
        let vs = variants(stem(f.nome));
        lemma_match_from_code(cat, vs, 0);
        let m = catalog_match(cat, stem(f.nome))->0;
        let j = choose|j: int| 0 <= j < cat.len() && cat[j] == m;
        assert(cat[j].codigo == rec.codigo);
        let k = choose|k: int| 0 <= k < vs.len() && m.codigo == vs[k];
        assert(vs[k] == rec.codigo);
        assert(!has_code(ts, vs[k]));
        lemma_find_none(ts, rec.codigo, 0);
        let n = ts.len() as int;
        let kv = crate::store::kept(ts, rec, n);
        let r = replaced(ts, rec);
        lemma_kept_subset(ts, rec, n);
        assert forall|k: int| 0 <= k < r.len() implies #[trigger] r[k] == rec || ts.contains(r[k]) by {
            if k < kv.len() {
                assert(r[k] == kv[k]);
            }
        }
        assert forall|i: int| 0 <= i < ts.len() && (#[trigger] ts[i]).id != rec.id implies r.contains(
            ts[i],
        ) by {
            lemma_kept_contains(ts, rec, n, i);
            let idx = choose|idx: int| 0 <= idx < kv.len() && kv[idx] == ts[i];
            assert(r[idx] == ts[i]);
        }
    }
}

/// The index after a reindex pass over the files `fs[..n]`, where `gravado[i]`
/// says whether the host's write of file `i`'s record succeeded.
pub open spec fn reindex_pass(
    ts: Seq<MusicaV>,
    fs: Seq<ArquivoLocalV>,
    cat: Seq<SupabaseMusicaV>,
    gravado: Seq<bool>,
    n: int,
) -> Seq<MusicaV>
    decreases n,
{
    if n <= 0 {
        ts
    } else {
        let prev = reindex_pass(ts, fs, cat, gravado, n - 1);
        match reindex_step(prev, fs[n - 1], cat) {
            Some(rec) => if gravado[n - 1] {
                replaced(prev, rec)
            } else {
                prev
            },
            None => prev,
        }
    }
}

/// A record added by a reindex pass comes from a media file of the pass and
/// from the catalog entry the file's code names.
pub open spec fn reindexed_from(fs: Seq<ArquivoLocalV>, cat: Seq<SupabaseMusicaV>, r: MusicaV) -> bool {
    from_catalog(cat, r) && exists|i: int|
        0 <= i < fs.len() && is_media(fs[i].nome) && #[trigger] form_of(stem(fs[i].nome), r.codigo)
}

/// After a whole reindex pass every track of the index was either held before
/// the pass or comes from a media file of the pass whose code, under one of its
/// forms, the catalog has, carrying that entry's code and id.
pub proof fn lemma_reindex_pass(
    ts: Seq<MusicaV>,
    fs: Seq<ArquivoLocalV>,
    cat: Seq<SupabaseMusicaV>,
    gravado: Seq<bool>,
    n: int,
)
    requires
        0 <= n <= fs.len(),
        n <= gravado.len(),
    ensures
        ({
            let r = reindex_pass(ts, fs, cat, gravado, n);
            forall|k: int| 0 <= k < r.len() ==> ts.contains(#[trigger] r[k]) || reindexed_from(fs, cat, r[k])
        }),
    decreases n,
{
    if n > 0 {
        lemma_reindex_pass(ts, fs, cat, gravado, n - 1);
        let prev = reindex_pass(ts, fs, cat, gravado, n - 1);
        let f = fs[n - 1];
        lemma_reindex_only_catalog(prev, f, cat);
        if reindex_step(prev, f, cat) is Some && gravado[n - 1] {
            let rec = reindex_step(prev, f, cat)->0;
            let r = reindex_pass(ts, fs, cat, gravado, n);
            assert(r == replaced(prev, rec));
            assert(form_of(stem(fs[n - 1].nome), rec.codigo));
            assert(reindexed_from(fs, cat, rec));
            assert forall|k: int| 0 <= k < r.len() implies ts.contains(#[trigger] r[k]) || reindexed_from(fs, cat, r[k]) by {
                if r[k] != rec {
                    assert(prev.contains(r[k]));
                    let j = choose|j: int| 0 <= j < prev.len() && prev[j] == r[k];
                    assert(ts.contains(prev[j]) || reindexed_from(fs, cat, prev[j]));
                }
            }
        }
    }
}

/// What the media directory and the catalog add up to.
#[derive(Clone, Debug)]
pub struct OfflineStatus {
    pub total_musicas: u64,
    pub musicas_offline: u64,
    pub musicas_online: u64,
    pub storage_used: i64,
}

/// Counts for the player: indexed tracks and their bytes always; where the
/// catalog could be fetched, its size and how many of it are not indexed (never
/// below zero), else the indexed count for the total and zero not indexed. An
/// error where the byte total overflows.
pub fn get_offline_status(store: &LocalStore, remoto: &Result<Vec<SupabaseMusica>, String>) -> (r:
    Result<OfflineStatus, String>)
    ensures
        ({
            let local = store@.musicas.len();
            let bytes = size_sum(store@.musicas, local as int);
            &&& r is Ok <==> bytes is Some
            &&& r matches Ok(st) ==> {
                &&& st.musicas_offline == local
                &&& Some(st.storage_used) == bytes
                &&& match remoto {
                    Ok(cat) => st.total_musicas == cat@.len() && st.musicas_online == if cat@.len()
                        > local {
                        cat@.len() - local
                    } else {
                        0
                    },
                    Err(_) => st.total_musicas == local && st.musicas_online == 0,
                }
            }
        }),
{
    let local = count_musicas_local(store);
    let bytes = match storage_used(store) {
        Ok(b) => b,
        Err(e) => {
            return Err(e);
        },
    };
    let (total, online) = match remoto {
        Ok(cat) => {
            let t = cat.len() as u64;
            (t, if t > local {
                t - local
            } else {
                0
            })
        },
        Err(_) => (local, 0),
    };
    Ok(OfflineStatus { total_musicas: total, musicas_offline: local, musicas_online: online, storage_used: bytes })
}

} // verus!
