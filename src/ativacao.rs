//! The activation reconciler: merges what the remote authority says of the key
//! into the local record, and estimates the time left from that record when the
//! remote cannot be asked.
use vstd::prelude::*;
use crate::clock::{now_millis, parse_datetime, parsed_millis, MS_PER_DAY};
use crate::remote::{SupabaseChave, SupabaseChaveV};
use crate::store::{
    activation_id, get_ativacao, opt_text, remover_ativacao_db, salvar_ativacao, AtivacaoV, LocalStore,
};
use crate::text::{joined, same_text, trim_of, trimmed, upper_of, uppercased};

verus! {

/// What the player is told of its activation. `restante_ms` is the
/// machine-bound time left, in milliseconds.
#[derive(Clone, Debug)]
pub struct AtivacaoStatus {
    pub ativada: bool,
    pub expirada: bool,
    pub modo: String,
    pub chave: Option<String>,
    pub tipo: String,
    pub dias_restantes: Option<i64>,
    pub restante_ms: Option<i64>,
}

pub struct AtivacaoStatusV {
    pub ativada: bool,
    pub expirada: bool,
    pub modo: Seq<char>,
    pub chave: Option<Seq<char>>,
    pub tipo: Seq<char>,
    pub dias_restantes: Option<i64>,
    pub restante_ms: Option<i64>,
}

impl View for AtivacaoStatus {
    type V = AtivacaoStatusV;

    open spec fn view(&self) -> AtivacaoStatusV {
        AtivacaoStatusV {
            ativada: self.ativada,
            expirada: self.expirada,
            modo: self.modo@,
            chave: opt_text(self.chave),
            tipo: self.tipo@,
            dias_restantes: self.dias_restantes,
            restante_ms: self.restante_ms,
        }
    }
}

/// The write the local record needs after a reconciliation.
#[derive(Clone, Debug)]
pub enum Gravacao {
    Nenhuma,
    Remover,
    Salvar {
        chave: String,
        tipo: String,
        dias_restantes: Option<i64>,
        restante_ms: Option<i64>,
        data_expiracao: Option<i64>,
    },
}

pub enum GravacaoV {
    Nenhuma,
    Remover,
    Salvar {
        chave: Seq<char>,
        tipo: Seq<char>,
        dias_restantes: Option<i64>,
        restante_ms: Option<i64>,
        data_expiracao: Option<i64>,
    },
}

impl View for Gravacao {
    type V = GravacaoV;

    open spec fn view(&self) -> GravacaoV {
        match self {
            Gravacao::Nenhuma => GravacaoV::Nenhuma,
            Gravacao::Remover => GravacaoV::Remover,
            Gravacao::Salvar { chave, tipo, dias_restantes, restante_ms, data_expiracao } => {
                GravacaoV::Salvar {
                    chave: chave@,
                    tipo: tipo@,
                    dias_restantes: *dias_restantes,
                    restante_ms: *restante_ms,
                    data_expiracao: *data_expiracao,
                }
            },
        }
    }
}

/// A status query's outcome: the status, the write the local record needs, and
/// the remote key id whose last use is to be stamped, if any.
#[derive(Clone, Debug)]
pub struct Reconciliacao {
    pub status: AtivacaoStatus,
    pub gravacao: Gravacao,
    pub ultimo_uso: Option<String>,
}

pub struct ReconciliacaoV {
    pub status: AtivacaoStatusV,
    pub gravacao: GravacaoV,
    pub ultimo_uso: Option<Seq<char>>,
}

impl View for Reconciliacao {
    type V = ReconciliacaoV;

    open spec fn view(&self) -> ReconciliacaoV {
        ReconciliacaoV {
            status: self.status@,
            gravacao: self.gravacao@,
            ultimo_uso: opt_text(self.ultimo_uso),
        }
    }
}

pub open spec fn subscription() -> Seq<char> {
    "assinatura"@
}

pub open spec fn machine_bound() -> Seq<char> {
    "maquina"@
}

pub open spec fn active_state() -> Seq<char> {
    "ativa"@
}

/// `x` brought into `0 ..= i64::MAX`.
pub open spec fn clamp_nonneg(x: int) -> i64 {
    if x < 0 {
        0
    } else if x > i64::MAX {
        i64::MAX
    } else {
        x as i64
    }
}

/// Whole days, rounded up, in a positive span of milliseconds.
pub open spec fn ceil_days(span: int) -> int {
    (span + MS_PER_DAY - 1) / MS_PER_DAY as int
}

/// Time left as the remote record gives it, at `agora`.
pub struct Validade {
    pub dias_restantes: Option<i64>,
    pub restante_ms: Option<i64>,
    pub data_expiracao: Option<i64>,
    pub expirada: bool,
}

pub open spec fn no_countdown() -> Validade {
    Validade { dias_restantes: None, restante_ms: None, data_expiracao: None, expirada: false }
}

/// A subscription counts whole days to its expiry, rounded up, and is expired
/// from the expiry on; a machine-bound key has its allotment less the time since
/// it started, expired once nothing is left. Fields that are missing or cannot be
/// read leave the key without a countdown.
pub open spec fn remote_validity(c: SupabaseChaveV, agora: i64) -> Validade {
    if c.tipo == subscription() {
        match c.data_expiracao {
            Some(text) => match parsed_millis(text) {
                Some(exp) => if agora >= exp {
                    Validade {
                        dias_restantes: Some(0),
                        restante_ms: None,
                        data_expiracao: Some(exp),
                        expirada: true,
                    }
                } else {
                    Validade {
                        dias_restantes: Some(ceil_days(exp - agora) as i64),
                        restante_ms: None,
                        data_expiracao: Some(exp),
                        expirada: false,
                    }
                },
                None => no_countdown(),
            },
            None => no_countdown(),
        }
    } else if c.tipo == machine_bound() {
        match (c.limite_ms, c.data_inicio) {
            (Some(limite), Some(text)) => match parsed_millis(text) {
                Some(inicio) => {
                    let left = limite - (agora - inicio);
                    if left <= 0 {
                        Validade {
                            dias_restantes: None,
                            restante_ms: Some(0),
                            data_expiracao: None,
                            expirada: true,
                        }
                    } else {
                        Validade {
                            dias_restantes: None,
                            restante_ms: Some(clamp_nonneg(left)),
                            data_expiracao: None,
                            expirada: false,
                        }
                    }
                },
                None => no_countdown(),
            },
            _ => no_countdown(),
        }
    } else {
        no_countdown()
    }
}

pub open spec fn no_record_status() -> AtivacaoStatusV {
    AtivacaoStatusV {
        ativada: false,
        expirada: false,
        modo: "offline"@,
        chave: None,
        tipo: subscription(),
        dias_restantes: None,
        restante_ms: None,
    }
}

/// The estimate from the local record alone, at `agora`: a stored expiry gives
/// whole days left rounded up (expired from the expiry on); stored days lose one
/// per whole day since the last validation, down to zero; a machine-bound
/// allotment loses the time since the last validation, down to zero. A record
/// without these fields is active with no countdown.
pub open spec fn offline_status(a: AtivacaoV, agora: i64) -> AtivacaoStatusV {
    let base = AtivacaoStatusV {
        ativada: true,
        expirada: false,
        modo: "offline"@,
        chave: Some(a.chave),
        tipo: a.tipo,
        dias_restantes: a.dias_restantes,
        restante_ms: a.restante_ms,
    };
    if a.tipo == subscription() && a.data_expiracao is Some {
        let exp = a.data_expiracao->0;
        if agora >= exp {
            AtivacaoStatusV {
                ativada: false,
                expirada: true,
                dias_restantes: Some(0),
                restante_ms: None,
                ..base
            }
        } else {
            AtivacaoStatusV {
                dias_restantes: Some(ceil_days(exp - agora) as i64),
                restante_ms: None,
                ..base
            }
        }
    } else if a.tipo == subscription() && a.dias_restantes is Some {
        let left = clamp_nonneg(a.dias_restantes->0 - (agora - a.data_validacao) / MS_PER_DAY as int);
        AtivacaoStatusV {
            ativada: left > 0,
            expirada: left <= 0,
            dias_restantes: Some(left),
            restante_ms: None,
            ..base
        }
    } else if a.tipo == machine_bound() && a.restante_ms is Some {
        let left = a.restante_ms->0 - (agora - a.data_validacao);
        AtivacaoStatusV {
            ativada: left > 0,
            expirada: left <= 0,
            dias_restantes: None,
            restante_ms: Some(clamp_nonneg(left)),
            ..base
        }
    } else {
        base
    }
}

/// The status the remote record gives, at `agora`.
pub open spec fn online_status(c: SupabaseChaveV, agora: i64) -> AtivacaoStatusV {
    let v = remote_validity(c, agora);
    AtivacaoStatusV {
        ativada: !v.expirada,
        expirada: v.expirada,
        modo: "online"@,
        chave: Some(c.chave),
        tipo: c.tipo,
        dias_restantes: v.dias_restantes,
        restante_ms: v.restante_ms,
    }
}

pub open spec fn found_key(remota: Result<Option<SupabaseChave>, String>) -> Option<SupabaseChaveV> {
    match remota {
        Ok(Some(c)) => Some(c@),
        _ => None,
    }
}

pub open spec fn save_of(c: SupabaseChaveV, v: Validade) -> GravacaoV {
    GravacaoV::Salvar {
        chave: c.chave,
        tipo: c.tipo,
        dias_restantes: v.dias_restantes,
        restante_ms: v.restante_ms,
        data_expiracao: v.data_expiracao,
    }
}

/// A status query: no record gives the never-activated status; a key the remote
/// finds replaces the record (or removes it, where the remote holds the key
/// inactive) and gives the remote's status; otherwise the local estimate stands
/// and the record is left alone.
pub open spec fn reconcile(
    local: Option<AtivacaoV>,
    remota: Option<SupabaseChaveV>,
    agora: i64,
) -> ReconciliacaoV {
    match local {
        None => ReconciliacaoV {
            status: no_record_status(),
            gravacao: GravacaoV::Nenhuma,
            ultimo_uso: None,
        },
        Some(a) => match remota {
            None => ReconciliacaoV {
                status: offline_status(a, agora),
                gravacao: GravacaoV::Nenhuma,
                ultimo_uso: None,
            },
            Some(c) => if c.status != active_state() {
                ReconciliacaoV {
                    status: AtivacaoStatusV {
                        ativada: false,
                        expirada: true,
                        modo: "online"@,
                        chave: Some(c.chave),
                        tipo: c.tipo,
                        dias_restantes: None,
                        restante_ms: None,
                    },
                    gravacao: GravacaoV::Remover,
                    ultimo_uso: None,
                }
            } else {
                let v = remote_validity(c, agora);
                ReconciliacaoV {
                    status: online_status(c, agora),
                    gravacao: save_of(c, v),
                    ultimo_uso: if v.expirada {
                        None
                    } else {
                        Some(c.id)
                    },
                }
            },
        },
    }
}

fn clamp_i128(x: i128) -> (r: i64)
    ensures
        r == clamp_nonneg(x as int),
{
    if x < 0 {
        0
    } else if x > i64::MAX as i128 {
        i64::MAX
    } else {
        x as i64
    }
}

/// Whole days, rounded up, from `agora` to a later `exp`.
fn days_until(exp: i64, agora: i64) -> (r: i64)
    requires
        agora < exp,
    ensures
        r == ceil_days(exp - agora),
{
    let span: u64 = ((exp as i128) - (agora as i128)) as u64;
    let day: u64 = MS_PER_DAY as u64;
    let q: u64 = span / day;
    let extra: u64 = if span % day != 0 {
        1
    } else {
        0
    };
    proof {
        let s = span as int;
        let d = day as int;
        assert(s == d * (s / d) + s % d) by (nonlinear_arith)
            requires
                d > 0,
        ;
        assert(0 <= s % d < d);
        assert((s + d - 1) / d == s / d + extra) by (nonlinear_arith)
            requires
                d > 0,
                s == d * (s / d) + s % d,
                0 <= s % d < d,
                extra == (if s % d != 0 {
                    1int
                } else {
                    0int
                }),
        ;
        assert(q <= s / 86_400_000);
    }
    (q + extra) as i64
}

/// Whole days (rounded down, towards minus infinity) in a span of milliseconds.
fn floor_days(span: i128) -> (r: i128)
    requires
        -0x1_0000_0000_0000_0000 <= span <= 0x1_0000_0000_0000_0000,
    ensures
        r == span as int / MS_PER_DAY as int,
{
    let day: i128 = MS_PER_DAY as i128;
    if span >= 0 {
        let q = (span as u128) / (day as u128);
        q as i128
    } else {
        let neg: u128 = (-span) as u128;
        let q: u128 = neg / (day as u128);
        let rem: u128 = neg % (day as u128);
        proof {
            let n = neg as int;
            let d = day as int;
            assert(n == d * (n / d) + n % d) by (nonlinear_arith)
                requires
                    d > 0,
            ;
            let s = span as int;
            assert(s == -n);
            if rem == 0 {
                assert(s / d == -(n / d)) by (nonlinear_arith)
                    requires
                        d > 0,
                        s == -n,
                        n == d * (n / d),
                ;
            } else {
                assert(s / d == -(n / d) - 1) by (nonlinear_arith)
                    requires
                        d > 0,
                        s == -n,
                        n == d * (n / d) + n % d,
                        0 < n % d < d,
                ;
            }
        }
        if rem == 0 {
            -(q as i128)
        } else {
            -(q as i128) - 1
        }
    }
}

fn text_is(s: &String, lit: &str) -> (r: bool)
    ensures
        r == (s@ == lit@),
{
    same_text(s.as_str(), lit)
}

fn offline_estimate(a: &crate::store::Ativacao, agora: i64) -> (r: AtivacaoStatus)
    ensures
        r@ == offline_status(a@, agora),
{
    let is_sub = text_is(&a.tipo, "assinatura");
    let is_machine = text_is(&a.tipo, "maquina");
    if is_sub && a.data_expiracao.is_some() {
        let exp = a.data_expiracao.unwrap();
        if agora >= exp {
            return AtivacaoStatus {
                ativada: false,
                expirada: true,
                modo: "offline".to_string(),
                chave: Some(a.chave.clone()),
                tipo: a.tipo.clone(),
                dias_restantes: Some(0),
                restante_ms: None,
            };
        }
        return AtivacaoStatus {
            ativada: true,
            expirada: false,
            modo: "offline".to_string(),
            chave: Some(a.chave.clone()),
            tipo: a.tipo.clone(),
            dias_restantes: Some(days_until(exp, agora)),
            restante_ms: None,
        };
    }
    if is_sub && a.dias_restantes.is_some() {
        let dias = a.dias_restantes.unwrap();
        let elapsed = floor_days((agora as i128) - (a.data_validacao as i128));
        let left = clamp_i128((dias as i128) - elapsed);
        return AtivacaoStatus {
            ativada: left > 0,
            expirada: left <= 0,
            modo: "offline".to_string(),
            chave: Some(a.chave.clone()),
            tipo: a.tipo.clone(),
            dias_restantes: Some(left),
            restante_ms: None,
        };
    }
    if is_machine && a.restante_ms.is_some() {
        let left = (a.restante_ms.unwrap() as i128) - ((agora as i128) - (a.data_validacao as i128));
        return AtivacaoStatus {
            ativada: left > 0,
            expirada: left <= 0,
            modo: "offline".to_string(),
            chave: Some(a.chave.clone()),
            tipo: a.tipo.clone(),
            dias_restantes: None,
            restante_ms: Some(clamp_i128(left)),
        };
    }
    AtivacaoStatus {
        ativada: true,
        expirada: false,
        modo: "offline".to_string(),
        chave: Some(a.chave.clone()),
        tipo: a.tipo.clone(),
        dias_restantes: a.dias_restantes,
        restante_ms: a.restante_ms,
    }
}

fn parse_opt(o: &Option<String>) -> (r: Option<i64>)
    ensures
        r == (match opt_text(*o) {
            Some(t) => parsed_millis(t),
            None => None,
        }),
{
    match o {
        Some(s) => parse_datetime(s.as_str()),
        None => None,
    }
}

fn validity(c: &SupabaseChave, agora: i64) -> (r: (Option<i64>, Option<i64>, Option<i64>, bool))
    ensures
        r.0 == remote_validity(c@, agora).dias_restantes,
        r.1 == remote_validity(c@, agora).restante_ms,
        r.2 == remote_validity(c@, agora).data_expiracao,
        r.3 == remote_validity(c@, agora).expirada,
{
    if text_is(&c.tipo, "assinatura") {
        match parse_opt(&c.data_expiracao) {
            Some(exp) => {
                if agora >= exp {
                    (Some(0), None, Some(exp), true)
                } else {
                    (Some(days_until(exp, agora)), None, Some(exp), false)
                }
            },
            None => (None, None, None, false),
        }
    } else if text_is(&c.tipo, "maquina") {
        match (c.limite_ms, &c.data_inicio) {
            (Some(limite), Some(_)) => match parse_opt(&c.data_inicio) {
                Some(inicio) => {
                    let left = (limite as i128) - ((agora as i128) - (inicio as i128));
                    if left <= 0 {
                        (None, Some(0), None, true)
                    } else {
                        (None, Some(clamp_i128(left)), None, false)
                    }
                },
                None => (None, None, None, false),
            },
            _ => (None, None, None, false),
        }
    } else {
        (None, None, None, false)
    }
}

fn no_record() -> (r: AtivacaoStatus)
    ensures
        r@ == no_record_status(),
{
    AtivacaoStatus {
        ativada: false,
        expirada: false,
        modo: "offline".to_string(),
        chave: None,
        tipo: "assinatura".to_string(),
        dias_restantes: None,
        restante_ms: None,
    }
}

/// A status query at time `agora`, given what the remote answered for the
/// stored key (an error, no such key, or its record).
pub fn verificar_ativacao_em(
    store: &LocalStore,
    remota: &Result<Option<SupabaseChave>, String>,
    agora: i64,
) -> (r: Reconciliacao)
    ensures
        r@ == reconcile(store@.ativacao, found_key(*remota), agora),
{
    let local = get_ativacao(store);
    match local {
        None => Reconciliacao { status: no_record(), gravacao: Gravacao::Nenhuma, ultimo_uso: None },
        Some(a) => match remota {
            Ok(Some(c)) => {
                if !text_is(&c.status, "ativa") {
                    return Reconciliacao {
                        status: AtivacaoStatus {
                            ativada: false,
                            expirada: true,
                            modo: "online".to_string(),
                            chave: Some(c.chave.clone()),
                            tipo: c.tipo.clone(),
                            dias_restantes: None,
                            restante_ms: None,
                        },
                        gravacao: Gravacao::Remover,
                        ultimo_uso: None,
                    };
                }
                let (dias, ms, exp, expirada) = validity(c, agora);
                Reconciliacao {
                    status: AtivacaoStatus {
                        ativada: !expirada,
                        expirada,
                        modo: "online".to_string(),
                        chave: Some(c.chave.clone()),
                        tipo: c.tipo.clone(),
                        dias_restantes: dias,
                        restante_ms: ms,
                    },
                    gravacao: Gravacao::Salvar {
                        chave: c.chave.clone(),
                        tipo: c.tipo.clone(),
                        dias_restantes: dias,
                        restante_ms: ms,
                        data_expiracao: exp,
                    },
                    ultimo_uso: if expirada {
                        None
                    } else {
                        Some(c.id.clone())
                    },
                }
            },
            _ => Reconciliacao {
                status: offline_estimate(&a, agora),
                gravacao: Gravacao::Nenhuma,
                ultimo_uso: None,
            },
        },
    }
}

/// A status query now; see `verificar_ativacao_em`.
pub fn verificar_ativacao(store: &LocalStore, remota: &Result<Option<SupabaseChave>, String>) -> (r:
    Reconciliacao)
    ensures
        exists|agora: i64| r@ == #[trigger] reconcile(store@.ativacao, found_key(*remota), agora),
{
    let agora = now_millis();
    verificar_ativacao_em(store, remota, agora)
}

/// Carries out on the store the write a reconciliation asked for, a save being
/// stamped as validated at `agora`.
pub fn aplicar_gravacao(store: &mut LocalStore, gravacao: &Gravacao, agora: i64)
    ensures
        final(store)@.musicas == old(store)@.musicas,
        final(store)@.historico == old(store)@.historico,
        final(store).wf() == old(store).wf(),
        match gravacao@ {
            GravacaoV::Nenhuma => final(store)@.ativacao == old(store)@.ativacao,
            GravacaoV::Remover => final(store)@.ativacao is None,
            GravacaoV::Salvar { chave, tipo, dias_restantes, restante_ms, data_expiracao } => {
                final(store)@.ativacao == Some(
                    AtivacaoV {
                        id: activation_id(),
                        chave,
                        tipo,
                        dias_restantes,
                        restante_ms,
                        data_expiracao,
                        data_validacao: agora,
                    },
                )
            },
        },
{
    match gravacao {
        Gravacao::Nenhuma => {},
        Gravacao::Remover => remover_ativacao_db(store),
        Gravacao::Salvar { chave, tipo, dias_restantes, restante_ms, data_expiracao } => {
            salvar_ativacao(
                store,
                chave.as_str(),
                tipo.as_str(),
                *dias_restantes,
                *restante_ms,
                *data_expiracao,
                agora,
            );
        },
    }
}

/// Drops the activation.
pub fn remover_ativacao(store: &mut LocalStore)
    ensures
        final(store)@.ativacao is None,
        final(store)@.musicas == old(store)@.musicas,
        final(store)@.historico == old(store)@.historico,
        final(store).wf() == old(store).wf(),
{
    remover_ativacao_db(store)
}

/// The time left on a key that validated.
#[derive(Clone, Debug)]
pub struct ChaveInfo {
    pub tipo: String,
    pub dias_restantes: Option<i64>,
    pub restante_ms: Option<i64>,
}

pub struct ChaveInfoV {
    pub tipo: Seq<char>,
    pub dias_restantes: Option<i64>,
    pub restante_ms: Option<i64>,
}

impl View for ChaveInfo {
    type V = ChaveInfoV;

    open spec fn view(&self) -> ChaveInfoV {
        ChaveInfoV {
            tipo: self.tipo@,
            dias_restantes: self.dias_restantes,
            restante_ms: self.restante_ms,
        }
    }
}

/// The answer to a key entered by the user.
#[derive(Clone, Debug)]
pub struct ValidacaoResult {
    pub valida: bool,
    pub error: Option<String>,
    pub chave: Option<ChaveInfo>,
}

pub struct ValidacaoResultV {
    pub valida: bool,
    pub error: Option<Seq<char>>,
    pub chave: Option<ChaveInfoV>,
}

impl View for ValidacaoResult {
    type V = ValidacaoResultV;

    open spec fn view(&self) -> ValidacaoResultV {
        ValidacaoResultV {
            valida: self.valida,
            error: opt_text(self.error),
            chave: match self.chave {
                Some(c) => Some(c@),
                None => None,
            },
        }
    }
}

/// A key validation's outcome: the answer, the write the local record needs, and
/// the remote key id whose last use is to be stamped, if any.
#[derive(Clone, Debug)]
pub struct Validacao {
    pub resultado: ValidacaoResult,
    pub gravacao: Gravacao,
    pub ultimo_uso: Option<String>,
}

pub struct ValidacaoV {
    pub resultado: ValidacaoResultV,
    pub gravacao: GravacaoV,
    pub ultimo_uso: Option<Seq<char>>,
}

impl View for Validacao {
    type V = ValidacaoV;

    open spec fn view(&self) -> ValidacaoV {
        ValidacaoV {
            resultado: self.resultado@,
            gravacao: self.gravacao@,
            ultimo_uso: opt_text(self.ultimo_uso),
        }
    }
}

pub open spec fn refused(msg: Seq<char>) -> ValidacaoV {
    ValidacaoV {
        resultado: ValidacaoResultV { valida: false, error: Some(msg), chave: None },
        gravacao: GravacaoV::Nenhuma,
        ultimo_uso: None,
    }
}

/// A key entered by the user: a remote error or an unknown key is refused with
/// its reason and changes nothing; a key the remote holds inactive is refused; an
/// active key replaces the local record (even one for another key) and reports
/// the time left.
pub open spec fn validation(remota: Result<Option<SupabaseChave>, String>, agora: i64) -> ValidacaoV {
    match remota {
        Err(e) => refused("Erro de conexao: "@ + e@),
        Ok(None) => refused("Chave nao encontrada"@),
        Ok(Some(ch)) => {
            let c = ch@;
            if c.status != active_state() {
                refused("Chave expirada ou inativa"@)
            } else {
                let v = remote_validity(c, agora);
                ValidacaoV {
                    resultado: ValidacaoResultV {
                        valida: true,
                        error: None,
                        chave: Some(
                            ChaveInfoV {
                                tipo: c.tipo,
                                dias_restantes: v.dias_restantes,
                                restante_ms: v.restante_ms,
                            },
                        ),
                    },
                    gravacao: save_of(c, v),
                    ultimo_uso: Some(c.id),
                }
            }
        },
    }
}

fn refuse(msg: String) -> (r: Validacao)
    ensures
        r@ == refused(msg@),
{
    Validacao {
        resultado: ValidacaoResult { valida: false, error: Some(msg), chave: None },
        gravacao: Gravacao::Nenhuma,
        ultimo_uso: None,
    }
}

/// A key validation at time `agora`, given what the remote answered for it.
pub fn validar_chave_em(remota: &Result<Option<SupabaseChave>, String>, agora: i64) -> (r: Validacao)
    ensures
        r@ == validation(*remota, agora),
{
    match remota {
        Err(e) => refuse(joined("Erro de conexao: ", e.as_str())),
        Ok(None) => refuse("Chave nao encontrada".to_string()),
        Ok(Some(c)) => {
            if !text_is(&c.status, "ativa") {
                return refuse("Chave expirada ou inativa".to_string());
            }
            let (dias, ms, exp, _expirada) = validity(c, agora);
            Validacao {
                resultado: ValidacaoResult {
                    valida: true,
                    error: None,
                    chave: Some(
                        ChaveInfo { tipo: c.tipo.clone(), dias_restantes: dias, restante_ms: ms },
                    ),
                },
                gravacao: Gravacao::Salvar {
                    chave: c.chave.clone(),
                    tipo: c.tipo.clone(),
                    dias_restantes: dias,
                    restante_ms: ms,
                    data_expiracao: exp,
                },
                ultimo_uso: Some(c.id.clone()),
            }
        },
    }
}

/// A key validation now; see `validar_chave_em`.
pub fn validar_chave(remota: &Result<Option<SupabaseChave>, String>) -> (r: Validacao)
    ensures
        exists|agora: i64| r@ == #[trigger] validation(*remota, agora),
{
    let agora = now_millis();
    validar_chave_em(remota, agora)
}

/// Spaces turned into dashes.
pub open spec fn dashed(s: Seq<char>) -> Seq<char> {
    s.map_values(|c: char| if c == ' ' { '-' } else { c })
}

/// `texto` with each space turned into a dash.
pub fn troca_espacos(texto: &str) -> (r: String)
    ensures
        r@ == dashed(texto@),
{
    let n = texto.unicode_len();
    let mut out = String::new();
    let mut i: usize = 0;
    proof {
        reveal_strlit("-");
    }
    while i < n
        invariant
            n == texto@.len(),
            i <= n,
            "-"@ == seq!['-'],
            out@ == dashed(texto@.subrange(0, i as int)),
        decreases n - i,
    {
        let c = texto.get_char(i);
        if c == ' ' {
            out.append("-");
        } else {
            out.append(texto.substring_char(i, i + 1));
        }
        i = i + 1;
        assert(out@ =~= dashed(texto@.subrange(0, i as int)));
    }
    assert(texto@.subrange(0, n as int) =~= texto@);
    out
}

/// The form a typed key is looked up under: trimmed, upper-cased, with each
/// space turned into a dash.
pub fn normaliza_chave(chave: &str) -> (r: String)
    ensures
        r@ == dashed(upper_of(trim_of(chave@))),
{
    let upper = uppercased(trimmed(chave));
    troca_espacos(upper.as_str())
}

} // verus!
