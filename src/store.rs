//! The Local Store: the track index, the usage history and the single
//! activation record, held in memory. Persisting them is the host's concern.
use vstd::prelude::*;
use crate::text::same_text;

verus! {

pub const SEARCH_LIMIT: usize = 50;

pub open spec fn opt_text(o: Option<String>) -> Option<Seq<char>> {
    match o {
        Some(s) => Some(s@),
        None => None,
    }
}

pub fn copy_opt_text(o: &Option<String>) -> (r: Option<String>)
    ensures
        opt_text(r) == opt_text(*o),
{
    match o {
        Some(s) => Some(s.clone()),
        None => None,
    }
}

/// A track held in the local index.
#[derive(Clone, Debug)]
pub struct Musica {
    pub id: String,
    pub codigo: String,
    pub artista: String,
    pub titulo: String,
    pub arquivo: String,
    pub nome_arquivo: Option<String>,
    pub tamanho: Option<i64>,
    pub duracao: Option<i64>,
    pub user_id: Option<String>,
}

pub struct MusicaV {
    pub id: Seq<char>,
    pub codigo: Seq<char>,
    pub artista: Seq<char>,
    pub titulo: Seq<char>,
    pub arquivo: Seq<char>,
    pub nome_arquivo: Option<Seq<char>>,
    pub tamanho: Option<i64>,
    pub duracao: Option<i64>,
    pub user_id: Option<Seq<char>>,
}

impl View for Musica {
    type V = MusicaV;

    open spec fn view(&self) -> MusicaV {
        MusicaV {
            id: self.id@,
            codigo: self.codigo@,
            artista: self.artista@,
            titulo: self.titulo@,
            arquivo: self.arquivo@,
            nome_arquivo: opt_text(self.nome_arquivo),
            tamanho: self.tamanho,
            duracao: self.duracao,
            user_id: opt_text(self.user_id),
        }
    }
}

impl Musica {
    pub fn copia(&self) -> (r: Musica)
        ensures
            r@ == self@,
    {
        Musica {
            id: self.id.clone(),
            codigo: self.codigo.clone(),
            artista: self.artista.clone(),
            titulo: self.titulo.clone(),
            arquivo: self.arquivo.clone(),
            nome_arquivo: copy_opt_text(&self.nome_arquivo),
            tamanho: self.tamanho,
            duracao: self.duracao,
            user_id: copy_opt_text(&self.user_id),
        }
    }
}

/// The short form of a track handed to the player.
#[derive(Clone, Debug)]
pub struct MusicaSimple {
    pub codigo: String,
    pub artista: String,
    pub titulo: String,
    pub arquivo: String,
}

pub struct MusicaSimpleV {
    pub codigo: Seq<char>,
    pub artista: Seq<char>,
    pub titulo: Seq<char>,
    pub arquivo: Seq<char>,
}

impl View for MusicaSimple {
    type V = MusicaSimpleV;

    open spec fn view(&self) -> MusicaSimpleV {
        MusicaSimpleV {
            codigo: self.codigo@,
            artista: self.artista@,
            titulo: self.titulo@,
            arquivo: self.arquivo@,
        }
    }
}

pub open spec fn simple_of(m: MusicaV) -> MusicaSimpleV {
    MusicaSimpleV { codigo: m.codigo, artista: m.artista, titulo: m.titulo, arquivo: m.arquivo }
}

pub fn simple(m: &Musica) -> (r: MusicaSimple)
    ensures
        r@ == simple_of(m@),
{
    MusicaSimple {
        codigo: m.codigo.clone(),
        artista: m.artista.clone(),
        titulo: m.titulo.clone(),
        arquivo: m.arquivo.clone(),
    }
}

/// The activation record. `restante_ms` is the machine-bound allotment left, in
/// milliseconds; times are milliseconds since the epoch.
#[derive(Clone, Debug)]
pub struct Ativacao {
    pub id: String,
    pub chave: String,
    pub tipo: String,
    pub dias_restantes: Option<i64>,
    pub restante_ms: Option<i64>,
    pub data_expiracao: Option<i64>,
    pub data_validacao: i64,
}

pub struct AtivacaoV {
    pub id: Seq<char>,
    pub chave: Seq<char>,
    pub tipo: Seq<char>,
    pub dias_restantes: Option<i64>,
    pub restante_ms: Option<i64>,
    pub data_expiracao: Option<i64>,
    pub data_validacao: i64,
}

impl View for Ativacao {
    type V = AtivacaoV;

    open spec fn view(&self) -> AtivacaoV {
        AtivacaoV {
            id: self.id@,
            chave: self.chave@,
            tipo: self.tipo@,
            dias_restantes: self.dias_restantes,
            restante_ms: self.restante_ms,
            data_expiracao: self.data_expiracao,
            data_validacao: self.data_validacao,
        }
    }
}

impl Ativacao {
    pub fn copia(&self) -> (r: Ativacao)
        ensures
            r@ == self@,
    {
        Ativacao {
            id: self.id.clone(),
            chave: self.chave.clone(),
            tipo: self.tipo.clone(),
            dias_restantes: self.dias_restantes,
            restante_ms: self.restante_ms,
            data_expiracao: self.data_expiracao,
            data_validacao: self.data_validacao,
        }
    }
}

/// One playback event.
#[derive(Clone, Debug)]
pub struct Historico {
    pub id: String,
    pub codigo: String,
    pub data_execucao: i64,
}

pub struct HistoricoV {
    pub id: Seq<char>,
    pub codigo: Seq<char>,
    pub data_execucao: i64,
}

impl View for Historico {
    type V = HistoricoV;

    open spec fn view(&self) -> HistoricoV {
        HistoricoV { id: self.id@, codigo: self.codigo@, data_execucao: self.data_execucao }
    }
}

pub struct LocalStore {
    musicas: Vec<Musica>,
    historico: Vec<Historico>,
    ativacao: Option<Ativacao>,
}

pub struct LocalStoreV {
    pub musicas: Seq<MusicaV>,
    pub historico: Seq<HistoricoV>,
    pub ativacao: Option<AtivacaoV>,
}

impl View for LocalStore {
    type V = LocalStoreV;

    closed spec fn view(&self) -> LocalStoreV {
        LocalStoreV {
            musicas: self.musicas@.map_values(|m: Musica| m@),
            historico: self.historico@.map_values(|h: Historico| h@),
            ativacao: match self.ativacao {
                Some(a) => Some(a@),
                None => None,
            },
        }
    }
}

/// No two tracks share a code, nor an id.
pub open spec fn unique_tracks(ts: Seq<MusicaV>) -> bool {
    forall|i: int, j: int|
        0 <= i < ts.len() && 0 <= j < ts.len() && i != j ==> (#[trigger] ts[i]).codigo
            != (#[trigger] ts[j]).codigo && ts[i].id != ts[j].id
}

/// The first track at or after position `i` whose code is `c`.
pub open spec fn find_from(ts: Seq<MusicaV>, c: Seq<char>, i: int) -> Option<MusicaV>
    decreases ts.len() - i,
{
    if i < 0 || i >= ts.len() {
        None
    } else if ts[i].codigo == c {
        Some(ts[i])
    } else {
        find_from(ts, c, i + 1)
    }
}

pub open spec fn track_with_code(ts: Seq<MusicaV>, c: Seq<char>) -> Option<MusicaV> {
    find_from(ts, c, 0)
}

pub open spec fn has_code(ts: Seq<MusicaV>, c: Seq<char>) -> bool {
    track_with_code(ts, c) is Some
}

/// The tracks among the first `n` that share neither the code nor the id of `m`.
pub open spec fn kept(ts: Seq<MusicaV>, m: MusicaV, n: int) -> Seq<MusicaV>
    decreases n,
{
    if n <= 0 {
        Seq::empty()
    } else if ts[n - 1].codigo != m.codigo && ts[n - 1].id != m.id {
        kept(ts, m, n - 1).push(ts[n - 1])
    } else {
        kept(ts, m, n - 1)
    }
}

/// The index after `m` is written: any track with its code or its id is
/// replaced, and `m` comes last.
pub open spec fn replaced(ts: Seq<MusicaV>, m: MusicaV) -> Seq<MusicaV> {
    kept(ts, m, ts.len() as int).push(m)
}

/// ASCII letters compare without regard to case, as the store's pattern match does.
pub open spec fn fold_case(c: char) -> u32 {
    if 'A' <= c && c <= 'Z' {
        (c as u32 + 32) as u32
    } else {
        c as u32
    }
}

pub open spec fn matches_at(hay: Seq<char>, needle: Seq<char>, k: int) -> bool {
    forall|j: int| 0 <= j < needle.len() ==> fold_case(#[trigger] hay[k + j]) == fold_case(needle[j])
}

pub open spec fn contains_folded(hay: Seq<char>, needle: Seq<char>) -> bool {
    exists|k: int| 0 <= k <= hay.len() - needle.len() && #[trigger] matches_at(hay, needle, k)
}

pub open spec fn track_matches(m: MusicaV, q: Seq<char>) -> bool {
    contains_folded(m.artista, q) || contains_folded(m.titulo, q) || contains_folded(m.codigo, q)
}

/// The short forms of the tracks among the first `n` that match `q`, in order.
pub open spec fn search_prefix(ts: Seq<MusicaV>, q: Seq<char>, n: int) -> Seq<MusicaSimpleV>
    decreases n,
{
    if n <= 0 {
        Seq::empty()
    } else if track_matches(ts[n - 1], q) {
        search_prefix(ts, q, n - 1).push(simple_of(ts[n - 1]))
    } else {
        search_prefix(ts, q, n - 1)
    }
}

pub open spec fn search_result(ts: Seq<MusicaV>, q: Seq<char>) -> Seq<MusicaSimpleV> {
    let all = search_prefix(ts, q, ts.len() as int);
    if all.len() <= SEARCH_LIMIT {
        all
    } else {
        all.take(SEARCH_LIMIT as int)
    }
}

/// Sum of the known sizes of the first `n` tracks, `None` once a partial sum
/// leaves the range of `i64`.
pub open spec fn size_sum(ts: Seq<MusicaV>, n: int) -> Option<i64>
    decreases n,
{
    if n <= 0 {
        Some(0)
    } else {
        match size_sum(ts, n - 1) {
            None => None,
            Some(s) => {
                let t = s + match ts[n - 1].tamanho {
                    Some(x) => x as int,
                    None => 0,
                };
                if i64::MIN <= t <= i64::MAX {
                    Some(t as i64)
                } else {
                    None
                }
            },
        }
    }
}

impl LocalStore {
    pub open spec fn wf(&self) -> bool {
        unique_tracks(self@.musicas)
    }

    pub fn new() -> (r: LocalStore)
        ensures
            r.wf(),
            r@.musicas.len() == 0,
            r@.historico.len() == 0,
            r@.ativacao is None,
    {
        LocalStore { musicas: Vec::new(), historico: Vec::new(), ativacao: None }
    }
}

proof fn lemma_search_prefix_grows(ts: Seq<MusicaV>, q: Seq<char>, n: int, m: int)
    requires
        0 <= n <= m <= ts.len(),
    ensures
        search_prefix(ts, q, n).len() <= search_prefix(ts, q, m).len(),
        search_prefix(ts, q, m).subrange(0, search_prefix(ts, q, n).len() as int)
            == search_prefix(ts, q, n),
    decreases m - n,
{
    if n < m {
        lemma_search_prefix_grows(ts, q, n, m - 1);
        let a = search_prefix(ts, q, n);
        let b = search_prefix(ts, q, m - 1);
        let c = search_prefix(ts, q, m);
        if track_matches(ts[m - 1], q) {
            assert(c.subrange(0, a.len() as int) =~= b.subrange(0, a.len() as int));
        }
    } else {
        assert(search_prefix(ts, q, m).subrange(0, search_prefix(ts, q, n).len() as int)
            =~= search_prefix(ts, q, n));
    }
}

fn chars_of(s: &str) -> (r: Vec<char>)
    ensures
        r@ == s@,
{
    let n = s.unicode_len();
    let mut out: Vec<char> = Vec::new();
    let mut i: usize = 0;
    while i < n
        invariant
            n == s@.len(),
            i <= n,
            out@ == s@.subrange(0, i as int),
        decreases n - i,
    {
        out.push(s.get_char(i));
        i = i + 1;
        assert(out@ =~= s@.subrange(0, i as int));
    }
    assert(out@ =~= s@);
    out
}

fn fold(c: char) -> (r: u32)
    ensures
        r == fold_case(c),
{
    if 'A' <= c && c <= 'Z' {
        c as u32 + 32
    } else {
        c as u32
    }
}

fn contains_chars(hay: &Vec<char>, needle: &Vec<char>) -> (r: bool)
    ensures
        r == contains_folded(hay@, needle@),
{
    let n = hay.len();
    let m = needle.len();
    if m > n {
        return false;
    }
    let mut k: usize = 0;
    while k <= n - m
        invariant
            n == hay@.len(),
            m == needle@.len(),
            m <= n,
            k <= n - m + 1,
            forall|p: int| 0 <= p < k ==> !#[trigger] matches_at(hay@, needle@, p),
        decreases n - m + 1 - k,
    {
        let mut j: usize = 0;
        let mut ok = true;
        while j < m
            invariant
                n == hay@.len(),
                m == needle@.len(),
                k + m <= n,
                j <= m,
                ok ==> forall|t: int| 0 <= t < j ==> fold_case(#[trigger] hay@[k + t]) == fold_case(needle@[t]),
                !ok ==> !matches_at(hay@, needle@, k as int),
            decreases m - j,
        {
            if ok && fold(hay[k + j]) != fold(needle[j]) {
                ok = false;
                assert(!(fold_case(hay@[k + j]) == fold_case(needle@[j as int])));
            }
            j = j + 1;
        }
        if ok {
            assert(matches_at(hay@, needle@, k as int));
            return true;
        }
        k = k + 1;
    }
    false
}

fn track_matches_exec(m: &Musica, q: &Vec<char>) -> (r: bool)
    ensures
        r == track_matches(m@, q@),
{
    contains_chars(&chars_of(m.artista.as_str()), q) || contains_chars(
        &chars_of(m.titulo.as_str()),
        q,
    ) || contains_chars(&chars_of(m.codigo.as_str()), q)
}

/// Tracks whose artist, title or code contains `query` (ASCII letters in any
/// case), in index order, at most fifty.
pub fn buscar_musicas_db(store: &LocalStore, query: &str) -> (r: Vec<MusicaSimple>)
    ensures
        r@.map_values(|s: MusicaSimple| s@) == search_result(store@.musicas, query@),
{
    let q = chars_of(query);
    let ghost ts = store@.musicas;
    let n = store.musicas.len();
    let mut out: Vec<MusicaSimple> = Vec::new();
    let mut i: usize = 0;
    while i < n && out.len() < SEARCH_LIMIT
        invariant
            n == ts.len(),
            ts == store@.musicas,
            q@ == query@,
            i <= n,
            out@.map_values(|s: MusicaSimple| s@) == search_prefix(ts, query@, i as int),
            out@.len() <= SEARCH_LIMIT,
        decreases n - i,
    {
        let m = &store.musicas[i];
        assert(ts[i as int] == m@);
        let ghost before = out@.map_values(|s: MusicaSimple| s@);
        if track_matches_exec(m, &q) {
            out.push(simple(m));
            assert(out@.map_values(|s: MusicaSimple| s@) =~= before.push(simple_of(ts[i as int])));
        }
        i = i + 1;
    }
    proof {
        let all = search_prefix(ts, query@, n as int);
        lemma_search_prefix_grows(ts, query@, i as int, n as int);
        if i < n {
            assert(all.take(SEARCH_LIMIT as int) =~= search_prefix(ts, query@, i as int));
        }
    }
    out
}

/// The track stored under exactly this code.
pub fn get_musica_by_codigo_db(store: &LocalStore, codigo: &str) -> (r: Option<MusicaSimple>)
    ensures
        match track_with_code(store@.musicas, codigo@) {
            Some(m) => r is Some && r->0@ == simple_of(m),
            None => r is None,
        },
{
    match position_of_code(store, codigo) {
        Some(i) => Some(simple(&store.musicas[i])),
        None => None,
    }
}

fn position_of_code(store: &LocalStore, codigo: &str) -> (r: Option<usize>)
    ensures
        match r {
            Some(i) => i < store@.musicas.len() && track_with_code(store@.musicas, codigo@) == Some(
                store@.musicas[i as int],
            ),
            None => track_with_code(store@.musicas, codigo@) is None,
        },
{
    let ghost ts = store@.musicas;
    let n = store.musicas.len();
    let mut i: usize = 0;
    while i < n
        invariant
            n == ts.len(),
            ts == store@.musicas,
            i <= n,
            find_from(ts, codigo@, 0) == find_from(ts, codigo@, i as int),
        decreases n - i,
    {
        assert(ts[i as int] == store.musicas@[i as int]@);
        if same_text(store.musicas[i].codigo.as_str(), codigo) {
            return Some(i);
        }
        i = i + 1;
    }
    None
}

/// Whether a track is stored under exactly this code.
pub fn musica_existe(store: &LocalStore, codigo: &str) -> (r: bool)
    ensures
        r == has_code(store@.musicas, codigo@),
{
    position_of_code(store, codigo).is_some()
}

/// The code of the track at position `sorteio` (modulo the count), drawn by the
/// caller; `None` when the index is empty.
pub fn musica_aleatoria_db(store: &LocalStore, sorteio: u64) -> (r: Option<String>)
    ensures
        store@.musicas.len() == 0 ==> r is None,
        store@.musicas.len() > 0 ==> r is Some && r->0@ == store@.musicas[(sorteio as int)
            % (store@.musicas.len() as int)].codigo,
{
    let n = store.musicas.len();
    if n == 0 {
        return None;
    }
    let k = (sorteio % (n as u64)) as usize;
    assert(store@.musicas[k as int] == store.musicas@[k as int]@);
    Some(store.musicas[k].codigo.clone())
}

/// How many tracks the index holds.
pub fn count_musicas_local(store: &LocalStore) -> (r: u64)
    ensures
        r == store@.musicas.len(),
{
    store.musicas.len() as u64
}

/// Sum of the known track sizes; an error where a partial sum overflows.
pub fn storage_used(store: &LocalStore) -> (r: Result<i64, String>)
    ensures
        r is Ok <==> size_sum(store@.musicas, store@.musicas.len() as int) is Some,
        r is Ok ==> size_sum(store@.musicas, store@.musicas.len() as int) == Some(r->Ok_0),
{
    let ghost ts = store@.musicas;
    let n = store.musicas.len();
    let mut total: i64 = 0;
    let mut i: usize = 0;
    while i < n
        invariant
            n == ts.len(),
            ts == store@.musicas,
            i <= n,
            size_sum(ts, i as int) == Some(total),
        decreases n - i,
    {
        assert(ts[i as int] == store.musicas@[i as int]@);
        let add: i64 = match store.musicas[i].tamanho {
            Some(x) => x,
            None => 0,
        };
        match total.checked_add(add) {
            Some(t) => {
                total = t;
            },
            None => {
                assert(size_sum(ts, i + 1) is None);
                proof {
                    lemma_size_sum_stays_none(ts, i + 1, n as int);
                }
                return Err("integer overflow".to_string());
            },
        }
        i = i + 1;
    }
    Ok(total)
}

proof fn lemma_size_sum_stays_none(ts: Seq<MusicaV>, i: int, n: int)
    requires
        0 <= i <= n,
        size_sum(ts, i) is None,
    ensures
        size_sum(ts, n) is None,
    decreases n - i,
{
    if i < n {
        lemma_size_sum_stays_none(ts, i, n - 1);
    }
}

/// Writes `m` into the index, replacing any track with its code or its id.
pub fn insert_musica(store: &mut LocalStore, musica: &Musica)
    requires
        old(store).wf(),
    ensures
        final(store).wf(),
        final(store)@.musicas == replaced(old(store)@.musicas, musica@),
        final(store)@.historico == old(store)@.historico,
        final(store)@.ativacao == old(store)@.ativacao,
{
    let ghost ts = store@.musicas;
    let ghost mv = musica@;
    let n = store.musicas.len();
    let mut out: Vec<Musica> = Vec::new();
    let ghost mut idx: Seq<int> = Seq::empty();
    let mut i: usize = 0;
    while i < n
        invariant
            n == ts.len(),
            ts == store@.musicas,
            mv == musica@,
            unique_tracks(ts),
            i <= n,
            out@.map_values(|x: Musica| x@) == kept(ts, mv, i as int),
            idx.len() == out@.len(),
            forall|a: int| 0 <= a < idx.len() ==> 0 <= #[trigger] idx[a] < i,
            forall|a: int, b: int| 0 <= a < b < idx.len() ==> #[trigger] idx[a] < #[trigger] idx[b],
            forall|a: int| 0 <= a < idx.len() ==> (#[trigger] out@[a])@ == ts[idx[a]],
        decreases n - i,
    {
        let x = &store.musicas[i];
        assert(ts[i as int] == x@);
        if !same_text(x.codigo.as_str(), musica.codigo.as_str()) && !same_text(
            x.id.as_str(),
            musica.id.as_str(),
        ) {
            let ghost before = out@.map_values(|y: Musica| y@);
            out.push(x.copia());
            proof {
                idx = idx.push(i as int);
            }
            assert(out@.map_values(|y: Musica| y@) =~= before.push(ts[i as int]));
        }
        i = i + 1;
    }
    let ghost kv = out@.map_values(|y: Musica| y@);
    proof {
        assert forall|a: int| 0 <= a < kv.len() implies kv[a].codigo != mv.codigo && kv[a].id != mv.id by {
            lemma_kept_excludes(ts, mv, n as int, a);
        }
        assert forall|a: int, b: int|
            0 <= a < kv.len() && 0 <= b < kv.len() && a != b implies (#[trigger] kv[a]).codigo
            != (#[trigger] kv[b]).codigo && kv[a].id != kv[b].id by {
            assert(kv[a] == ts[idx[a]]);
            assert(kv[b] == ts[idx[b]]);
            if a < b {
                assert(idx[a] < idx[b]);
            } else {
                assert(idx[b] < idx[a]);
            }
        }
    }
    out.push(musica.copia());
    store.musicas = out;
    assert(store@.musicas =~= kv.push(mv));
}

proof fn lemma_kept_excludes(ts: Seq<MusicaV>, m: MusicaV, n: int, a: int)
    requires
        0 <= n <= ts.len(),
        0 <= a < kept(ts, m, n).len(),
    ensures
        kept(ts, m, n)[a].codigo != m.codigo,
        kept(ts, m, n)[a].id != m.id,
    decreases n,
{
    if n > 0 {
        let prev = kept(ts, m, n - 1);
        if ts[n - 1].codigo != m.codigo && ts[n - 1].id != m.id {
            if a < prev.len() {
                lemma_kept_excludes(ts, m, n - 1, a);
            }
        } else {
            lemma_kept_excludes(ts, m, n - 1, a);
        }
    }
}

/// Relies on `uuid::Uuid::new_v4` and its `Display`, which writes the
/// hyphenated form of 36 characters; the value itself is random.
#[verifier::external_body]
fn new_record_id() -> (r: String)
    ensures
        r@.len() == 36,
{
    uuid::Uuid::new_v4().to_string()
}

pub open spec fn activation_id() -> Seq<char> {
    seq!['1']
}

/// The activation record, if one is held.
pub fn get_ativacao(store: &LocalStore) -> (r: Option<Ativacao>)
    ensures
        match r {
            Some(a) => store@.ativacao == Some(a@),
            None => store@.ativacao is None,
        },
{
    match &store.ativacao {
        Some(a) => Some(a.copia()),
        None => None,
    }
}

/// Replaces the activation record wholesale, stamped as validated at `agora`.
pub fn salvar_ativacao(
    store: &mut LocalStore,
    chave: &str,
    tipo: &str,
    dias_restantes: Option<i64>,
    restante_ms: Option<i64>,
    data_expiracao: Option<i64>,
    agora: i64,
)
    ensures
        final(store)@.ativacao == Some(
            AtivacaoV {
                id: activation_id(),
                chave: chave@,
                tipo: tipo@,
                dias_restantes,
                restante_ms,
                data_expiracao,
                data_validacao: agora,
            },
        ),
        final(store)@.musicas == old(store)@.musicas,
        final(store)@.historico == old(store)@.historico,
        final(store).wf() == old(store).wf(),
{
    proof {
        reveal_strlit("1");
        assert("1"@ =~= activation_id());
    }
    store.ativacao = Some(
        Ativacao {
            id: "1".to_string(),
            chave: chave.to_string(),
            tipo: tipo.to_string(),
            dias_restantes,
            restante_ms,
            data_expiracao,
            data_validacao: agora,
        },
    );
}

/// Puts back an activation record read from persistent storage, as it was.
pub fn restaurar_ativacao(store: &mut LocalStore, ativacao: Ativacao)
    ensures
        final(store)@.ativacao == Some(ativacao@),
        final(store)@.musicas == old(store)@.musicas,
        final(store)@.historico == old(store)@.historico,
        final(store).wf() == old(store).wf(),
{
    store.ativacao = Some(ativacao);
}

/// Drops the activation record; doing so twice is the same as once.
pub fn remover_ativacao_db(store: &mut LocalStore)
    ensures
        final(store)@.ativacao is None,
        final(store)@.musicas == old(store)@.musicas,
        final(store)@.historico == old(store)@.historico,
        final(store).wf() == old(store).wf(),
{
    store.ativacao = None;
}

/// A new playback event for `codigo` at `agora`, with a fresh id.
pub fn registro_historico(codigo: &str, agora: i64) -> (r: Historico)
    ensures
        r@.codigo == codigo@,
        r@.id.len() == 36,
        r@.data_execucao == agora,
{
    Historico { id: new_record_id(), codigo: codigo.to_string(), data_execucao: agora }
}

/// Appends a playback event to the history; nothing else changes.
pub fn salvar_historico_db(store: &mut LocalStore, registro: Historico)
    ensures
        final(store)@.historico == old(store)@.historico.push(registro@),
        final(store)@.musicas == old(store)@.musicas,
        final(store)@.ativacao == old(store)@.ativacao,
        final(store).wf() == old(store).wf(),
{
    let ghost r = registro@;
    store.historico.push(registro);
    assert(store@.historico =~= old(store)@.historico.push(r));
}

} // verus!
