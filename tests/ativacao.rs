use karaoke_core::ativacao::{
    normaliza_chave, remover_ativacao, troca_espacos, validar_chave, validar_chave_em, verificar_ativacao,
    verificar_ativacao_em, aplicar_gravacao, Gravacao,
};
use karaoke_core::clock::{end_of_day, parse_datetime};
use karaoke_core::remote::SupabaseChave;
use karaoke_core::store::{get_ativacao, restaurar_ativacao, Ativacao, LocalStore};

const DAY: i64 = 86_400_000;
const HOUR: i64 = 3_600_000;
const T0: i64 = 1_700_000_000_000;

fn record(tipo: &str, dias: Option<i64>, ms: Option<i64>, exp: Option<i64>, validado: i64) -> Ativacao {
    Ativacao {
        id: "1".to_string(),
        chave: "ABC-123".to_string(),
        tipo: tipo.to_string(),
        dias_restantes: dias,
        restante_ms: ms,
        data_expiracao: exp,
        data_validacao: validado,
    }
}

fn store_with(a: Ativacao) -> LocalStore {
    let mut s = LocalStore::new();
    restaurar_ativacao(&mut s, a);
    s
}

fn remote_key(tipo: &str, status: &str, exp: Option<&str>, inicio: Option<&str>, limite: Option<i64>) -> SupabaseChave {
    SupabaseChave {
        id: "key-id-7".to_string(),
        chave: "ABC-123".to_string(),
        tipo: tipo.to_string(),
        status: status.to_string(),
        data_expiracao: exp.map(|s| s.to_string()),
        data_inicio: inicio.map(|s| s.to_string()),
        limite_ms: limite,
    }
}

fn unreachable() -> Result<Option<SupabaseChave>, String> {
    Err("network down".to_string())
}

#[test]
fn no_record_reports_inactive_offline() {
    let s = LocalStore::new();
    let r = verificar_ativacao_em(&s, &unreachable(), T0);
    assert!(!r.status.ativada);
    assert!(!r.status.expirada);
    assert_eq!(r.status.modo, "offline");
    assert_eq!(r.status.tipo, "assinatura");
    assert_eq!(r.status.chave, None);
    assert!(matches!(r.gravacao, Gravacao::Nenhuma));
    let live = verificar_ativacao(&s, &Ok(None));
    assert!(!live.status.ativada && !live.status.expirada);
    assert_eq!(live.status.modo, "offline");
}

#[test]
fn subscription_two_days_ahead_offline() {
    let s = store_with(record("assinatura", Some(2), None, Some(T0 + 2 * DAY), T0));
    let r = verificar_ativacao_em(&s, &unreachable(), T0);
    assert!(r.status.ativada);
    assert!(!r.status.expirada);
    assert_eq!(r.status.modo, "offline");
    let d = r.status.dias_restantes.unwrap();
    assert!(d == 1 || d == 2);
    assert_eq!(d, 2);
}

#[test]
fn subscription_two_days_ahead_with_clock() {
    let now = std::time::SystemTime::now()
        .duration_since(std::time::UNIX_EPOCH)
        .unwrap()
        .as_millis() as i64;
    let s = store_with(record("assinatura", None, None, Some(now + 2 * DAY), now));
    let r = verificar_ativacao(&s, &unreachable());
    assert!(r.status.ativada);
    let d = r.status.dias_restantes.unwrap();
    assert!(d == 1 || d == 2);
}

#[test]
fn subscription_days_round_up_and_expire() {
    let s = store_with(record("assinatura", None, None, Some(T0 + DAY + 1), T0));
    assert_eq!(verificar_ativacao_em(&s, &unreachable(), T0).status.dias_restantes, Some(2));
    assert_eq!(verificar_ativacao_em(&s, &unreachable(), T0 + DAY).status.dias_restantes, Some(1));
    let at_expiry = verificar_ativacao_em(&s, &unreachable(), T0 + DAY + 1).status;
    assert!(at_expiry.expirada && !at_expiry.ativada);
    assert_eq!(at_expiry.dias_restantes, Some(0));
    let later = verificar_ativacao_em(&s, &unreachable(), T0 + 10 * DAY).status;
    assert!(later.expirada);
    assert_eq!(later.dias_restantes, Some(0));
}

#[test]
fn subscription_stored_days_decay_by_whole_days() {
    let s = store_with(record("assinatura", Some(5), None, None, T0));
    let r = verificar_ativacao_em(&s, &unreachable(), T0 + 2 * DAY + HOUR).status;
    assert_eq!(r.dias_restantes, Some(3));
    assert!(r.ativada && !r.expirada);
    let gone = verificar_ativacao_em(&s, &unreachable(), T0 + 9 * DAY).status;
    assert_eq!(gone.dias_restantes, Some(0));
    assert!(gone.expirada && !gone.ativada);
    let before = verificar_ativacao_em(&s, &unreachable(), T0 - HOUR).status;
    assert_eq!(before.dias_restantes, Some(6));
}

#[test]
fn machine_hours_decrease_and_clamp() {
    let s = store_with(record("maquina", None, Some(10 * HOUR), None, T0));
    let a = verificar_ativacao_em(&s, &unreachable(), T0 + HOUR).status;
    let b = verificar_ativacao_em(&s, &unreachable(), T0 + 2 * HOUR).status;
    assert_eq!(a.restante_ms, Some(9 * HOUR));
    assert_eq!(b.restante_ms, Some(8 * HOUR));
    assert!(b.restante_ms < a.restante_ms);
    let c = verificar_ativacao_em(&s, &unreachable(), T0 + 20 * HOUR).status;
    assert_eq!(c.restante_ms, Some(0));
    assert!(c.expirada && !c.ativada);
}

#[test]
fn machine_zero_hours_is_expired() {
    let s = store_with(record("maquina", None, Some(0), None, T0));
    let r = verificar_ativacao_em(&s, &unreachable(), T0).status;
    assert!(r.expirada);
    assert!(!r.ativada);
    assert_eq!(r.restante_ms, Some(0));
}

#[test]
fn record_without_countdown_stays_active() {
    let s = store_with(record("assinatura", None, None, None, T0));
    let r = verificar_ativacao_em(&s, &unreachable(), T0 + 400 * DAY).status;
    assert!(r.ativada && !r.expirada);
    assert_eq!(r.dias_restantes, None);
    assert_eq!(r.restante_ms, None);
    assert_eq!(r.chave.as_deref(), Some("ABC-123"));
}

#[test]
fn remote_success_overrides_local_snapshot() {
    let s = store_with(record("assinatura", Some(1), None, Some(T0 + DAY), T0));
    let key = remote_key("assinatura", "ativa", Some("2023-11-24T22:13:20Z"), None, None);
    let r = verificar_ativacao_em(&s, &Ok(Some(key)), T0);
    assert_eq!(r.status.modo, "online");
    assert!(r.status.ativada);
    assert_eq!(r.status.dias_restantes, Some(10));
    assert_eq!(r.ultimo_uso.as_deref(), Some("key-id-7"));
    match &r.gravacao {
        Gravacao::Salvar { dias_restantes, data_expiracao, .. } => {
            assert_eq!(*dias_restantes, Some(10));
            assert_eq!(*data_expiracao, Some(T0 + 10 * DAY));
        }
        _ => panic!("expected a save"),
    }
}

#[test]
fn remote_merge_twice_gives_same_values() {
    let mut s = store_with(record("maquina", None, Some(HOUR), None, T0 - 5 * DAY));
    let key = remote_key("maquina", "ativa", None, Some("2023-11-14T00:00:00Z"), Some(100 * HOUR));
    let remote = Ok(Some(key));
    let first = verificar_ativacao_em(&s, &remote, T0);
    aplicar_gravacao(&mut s, &first.gravacao, T0);
    let second = verificar_ativacao_em(&s, &remote, T0);
    assert_eq!(first.status.restante_ms, second.status.restante_ms);
    assert_eq!(first.status.dias_restantes, second.status.dias_restantes);
    assert_eq!(first.status.ativada, second.status.ativada);
    let stored = get_ativacao(&s).unwrap();
    assert_eq!(stored.restante_ms, first.status.restante_ms);
}

#[test]
fn remote_inactive_removes_record() {
    let mut s = store_with(record("assinatura", Some(3), None, None, T0));
    let key = remote_key("assinatura", "revogada", None, None, None);
    let r = verificar_ativacao_em(&s, &Ok(Some(key)), T0);
    assert!(r.status.expirada && !r.status.ativada);
    assert_eq!(r.status.modo, "online");
    assert!(matches!(r.gravacao, Gravacao::Remover));
    aplicar_gravacao(&mut s, &r.gravacao, T0);
    assert!(get_ativacao(&s).is_none());
}

#[test]
fn remote_expired_subscription_saved_with_zero_days() {
    let s = store_with(record("assinatura", Some(3), None, None, T0));
    let key = remote_key("assinatura", "ativa", Some("2020-01-01"), None, None);
    let r = verificar_ativacao_em(&s, &Ok(Some(key)), T0);
    assert!(r.status.expirada);
    assert_eq!(r.status.dias_restantes, Some(0));
    assert_eq!(r.ultimo_uso, None);
}

#[test]
fn remote_machine_used_up() {
    let s = store_with(record("maquina", None, Some(HOUR), None, T0));
    let key = remote_key("maquina", "ativa", None, Some("2023-01-01T00:00:00"), Some(HOUR));
    let r = verificar_ativacao_em(&s, &Ok(Some(key)), T0);
    assert!(r.status.expirada);
    assert_eq!(r.status.restante_ms, Some(0));
}

#[test]
fn validation_errors() {
    let e = validar_chave_em(&Err("timeout".to_string()), T0);
    assert!(!e.resultado.valida);
    assert_eq!(e.resultado.error.as_deref(), Some("Erro de conexao: timeout"));
    let nf = validar_chave_em(&Ok(None), T0);
    assert_eq!(nf.resultado.error.as_deref(), Some("Chave nao encontrada"));
    let inactive = validar_chave_em(&Ok(Some(remote_key("assinatura", "bloqueada", None, None, None))), T0);
    assert_eq!(inactive.resultado.error.as_deref(), Some("Chave expirada ou inativa"));
    assert!(matches!(inactive.gravacao, Gravacao::Nenhuma));
}

#[test]
fn validation_adopts_active_key() {
    let key = remote_key("maquina", "ativa", None, Some("2023-11-14T22:13:20+00:00"), Some(48 * HOUR));
    let v = validar_chave_em(&Ok(Some(key)), T0 + 12 * HOUR);
    assert!(v.resultado.valida);
    assert_eq!(v.resultado.error, None);
    let info = v.resultado.chave.as_ref().unwrap();
    assert_eq!(info.tipo, "maquina");
    assert_eq!(info.restante_ms, Some(36 * HOUR));
    assert_eq!(v.ultimo_uso.as_deref(), Some("key-id-7"));
    let mut s = store_with(record("assinatura", Some(1), None, None, T0));
    aplicar_gravacao(&mut s, &v.gravacao, T0 + 12 * HOUR);
    let stored = get_ativacao(&s).unwrap();
    assert_eq!(stored.id, "1");
    assert_eq!(stored.chave, "ABC-123");
    assert_eq!(stored.data_validacao, T0 + 12 * HOUR);
    assert_eq!(stored.tipo, "maquina");
    assert_eq!(stored.restante_ms, Some(36 * HOUR));
    let again = validar_chave(&Ok(None));
    assert!(!again.resultado.valida);
}

#[test]
fn key_normalization() {
    assert_eq!(normaliza_chave("  abc def 12 "), "ABC-DEF-12");
    assert_eq!(normaliza_chave("xy"), "XY");
    assert_eq!(troca_espacos("A B  c"), "A-B--c");
}

#[test]
fn timestamp_forms() {
    assert_eq!(parse_datetime("2023-11-14T22:13:20Z"), Some(T0));
    assert_eq!(parse_datetime("2023-11-14T23:13:20+01:00"), Some(T0));
    assert_eq!(parse_datetime("2023-11-14T22:13:20.5"), Some(T0 + 500));
    assert_eq!(parse_datetime("2023-11-14T22:13:20"), Some(T0));
    assert_eq!(parse_datetime("1970-01-02"), Some(DAY + 86_399_000));
    assert_eq!(parse_datetime("not a date"), None);
    assert_eq!(end_of_day(719_163), 86_399_000);
    assert_eq!(end_of_day(719_164), DAY + 86_399_000);
}

#[test]
fn clearing_activation_is_idempotent() {
    let mut s = store_with(record("assinatura", Some(1), None, None, T0));
    remover_ativacao(&mut s);
    assert!(get_ativacao(&s).is_none());
    remover_ativacao(&mut s);
    assert!(get_ativacao(&s).is_none());
}
