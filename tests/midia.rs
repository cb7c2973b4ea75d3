use karaoke_core::codes::{codigo_variantes, normaliza_codigo};
use karaoke_core::text::trimmed;
use karaoke_core::musicas::{
    buscar_musicas, buscar_musicas_aparado, get_all_musicas_count, get_musica_by_codigo,
    get_video_path, musica_aleatoria, resolve_codigo, video_do_codigo,
};
use karaoke_core::remote::SupabaseMusica;
use karaoke_core::store::{
    buscar_musicas_db, count_musicas_local, get_musica_by_codigo_db, insert_musica,
    musica_aleatoria_db, musica_existe, registro_historico, salvar_historico_db, storage_used, LocalStore, Musica,
};
use karaoke_core::sync::{
    apos_download, apos_gravacao, apos_reindex, download_batch, get_offline_status,
    reindex_arquivo, reindex_musicas, ArquivoLocal, Download, DownloadResult,
};
use karaoke_core::AppState;

fn track(id: &str, codigo: &str, artista: &str, titulo: &str, tamanho: Option<i64>) -> Musica {
    Musica {
        id: id.to_string(),
        codigo: codigo.to_string(),
        artista: artista.to_string(),
        titulo: titulo.to_string(),
        arquivo: format!("/data/musicas/{}.mp4", codigo),
        nome_arquivo: None,
        tamanho,
        duracao: Some(200),
        user_id: None,
    }
}

fn entry(codigo: &str) -> SupabaseMusica {
    SupabaseMusica {
        id: format!("id-{}", codigo),
        codigo: codigo.to_string(),
        artista: "Artist".to_string(),
        titulo: format!("Song {}", codigo),
        arquivo: format!("https://cdn.example/{}.mp4", codigo),
        nome_arquivo: Some(format!("{}.mp4", codigo)),
        tamanho: None,
        duracao: Some(180),
        user_id: Some("owner".to_string()),
    }
}

fn file(nome: &str, tamanho: i64) -> ArquivoLocal {
    ArquivoLocal { nome: nome.to_string(), caminho: format!("/data/musicas/{}", nome), tamanho }
}

fn codes(v: &[String]) -> Vec<&str> {
    v.iter().map(|s| s.as_str()).collect()
}

#[test]
fn variants_of_codes() {
    assert_eq!(codes(&codigo_variantes("1009")), vec!["1009", "01009"]);
    assert_eq!(codes(&codigo_variantes("01009")), vec!["01009", "1009"]);
    assert_eq!(codes(&codigo_variantes("12345")), vec!["12345"]);
    assert_eq!(codes(&codigo_variantes("0")), vec!["0", "00000"]);
    assert_eq!(codes(&codigo_variantes("000")), vec!["000", "00000", "0"]);
    assert_eq!(codes(&codigo_variantes("AB12")), vec!["AB12"]);
    assert_eq!(codes(&codigo_variantes("")), vec!["", "00000", "0"]);
}

#[test]
fn lookup_finds_padded_record_from_both_forms() {
    let mut s = LocalStore::new();
    insert_musica(&mut s, &track("a", "01009", "Queen", "Bohemian", Some(10)));
    let files: Vec<ArquivoLocal> = vec![];
    let a = get_musica_by_codigo(&s, &files, "1009").unwrap();
    let b = get_musica_by_codigo(&s, &files, "01009").unwrap();
    assert_eq!(a.codigo, "01009");
    assert_eq!(a.codigo, b.codigo);
    assert_eq!(a.titulo, b.titulo);
    let c = get_musica_by_codigo(&s, &files, "  1009 ").unwrap();
    assert_eq!(c.codigo, "01009");
    assert!(get_musica_by_codigo(&s, &files, "2000").is_none());
}

#[test]
fn lookup_finds_unpadded_record_from_both_forms() {
    let mut s = LocalStore::new();
    insert_musica(&mut s, &track("a", "1009", "Queen", "Bohemian", Some(10)));
    let files = vec![file("01009.mp4", 5)];
    let a = get_musica_by_codigo(&s, &files, "1009").unwrap();
    let b = get_musica_by_codigo(&s, &files, "01009").unwrap();
    assert_eq!(a.codigo, "1009");
    assert_eq!(b.codigo, "1009");
    assert_eq!(b.artista, "Queen");
}

#[test]
fn lookup_falls_back_to_media_file() {
    let s = LocalStore::new();
    let files = vec![file("1001.mp4", 5), file("notes.txt", 1)];
    let m = get_musica_by_codigo(&s, &files, "01001").unwrap();
    assert_eq!(m.codigo, "1001");
    assert_eq!(m.artista, "Desconhecido");
    assert_eq!(m.titulo, "1001");
    assert_eq!(m.arquivo, "/data/musicas/1001.mp4");
}

#[test]
fn canonical_form_comes_first_for_files() {
    let s = LocalStore::new();
    let files = vec![file("1009.mp4", 5), file("01009.mp4", 6)];
    let m = get_musica_by_codigo(&s, &files, "1009").unwrap();
    assert_eq!(m.codigo, "01009");
    assert_eq!(m.arquivo, "/data/musicas/01009.mp4");
    assert_eq!(get_video_path(&files, "1009"), Ok("/data/musicas/01009.mp4".to_string()));
    assert_eq!(get_video_path(&[].to_vec(), " 1009 "), Err("Video not found: 01009".to_string()));
    assert_eq!(video_do_codigo(&files, "1009"), Ok("/data/musicas/01009.mp4".to_string()));
    assert_eq!(resolve_codigo(&s, &files, "01009").unwrap().codigo, "01009");
}

#[test]
fn canonical_code_form() {
    assert_eq!(normaliza_codigo("1009"), "01009");
    assert_eq!(normaliza_codigo("01009"), "01009");
    assert_eq!(normaliza_codigo("109"), "109");
    assert_eq!(normaliza_codigo("123456"), "123456");
    assert_eq!(normaliza_codigo("A009"), "A009");
}

#[test]
fn trimming_removes_unicode_whitespace() {
    assert_eq!(trimmed(" \t\u{3000}ab c\u{a0}\n"), "ab c");
    assert_eq!(trimmed("   "), "");
    assert_eq!(trimmed("x"), "x");
}

#[test]
fn video_path_tries_all_forms() {
    let files = vec![file("01009.mp4", 5)];
    assert_eq!(get_video_path(&files, "1009"), Ok("/data/musicas/01009.mp4".to_string()));
    assert_eq!(get_video_path(&files, " 01009"), Ok("/data/musicas/01009.mp4".to_string()));
    assert_eq!(get_video_path(&files, "777"), Err("Video not found: 777".to_string()));
}

#[test]
fn search_matches_any_field_ignoring_ascii_case() {
    let mut s = LocalStore::new();
    insert_musica(&mut s, &track("a", "01001", "Queen", "Bohemian Rhapsody", None));
    insert_musica(&mut s, &track("b", "01002", "Abba", "Waterloo", None));
    insert_musica(&mut s, &track("c", "02002", "Muse", "Uprising", None));
    let r = buscar_musicas(&s, "QUEEN");
    assert_eq!(r.len(), 1);
    assert_eq!(r[0].codigo, "01001");
    let r2 = buscar_musicas(&s, "002");
    assert_eq!(r2.iter().map(|m| m.codigo.as_str()).collect::<Vec<_>>(), vec!["01002", "02002"]);
    assert!(buscar_musicas(&s, " a ").is_empty());
    assert!(buscar_musicas_aparado(&s, " a ", "a").is_empty());
    assert_eq!(buscar_musicas_aparado(&s, "queen", "queen").len(), 1);
    assert_eq!(buscar_musicas_db(&s, "a").len(), 2);
}

#[test]
fn search_is_capped_at_fifty() {
    let mut s = LocalStore::new();
    for i in 0..60 {
        insert_musica(&mut s, &track(&format!("id{}", i), &format!("{:05}", i), "Same", "Title", None));
    }
    let r = buscar_musicas(&s, "same");
    assert_eq!(r.len(), 50);
    assert_eq!(r[0].codigo, "00000");
    assert_eq!(r[49].codigo, "00049");
}

#[test]
fn insert_replaces_by_code_and_by_id() {
    let mut s = LocalStore::new();
    insert_musica(&mut s, &track("a", "01001", "X", "One", Some(1)));
    insert_musica(&mut s, &track("b", "01002", "X", "Two", Some(2)));
    insert_musica(&mut s, &track("c", "01001", "X", "One again", Some(3)));
    assert_eq!(count_musicas_local(&s), 2);
    assert_eq!(get_musica_by_codigo_db(&s, "01001").unwrap().titulo, "One again");
    insert_musica(&mut s, &track("b", "09999", "X", "Moved", Some(4)));
    assert_eq!(count_musicas_local(&s), 2);
    assert!(!musica_existe(&s, "01002"));
    assert!(musica_existe(&s, "09999"));
    assert_eq!(get_all_musicas_count(&s), 2);
}

#[test]
fn storage_sums_known_sizes() {
    let mut s = LocalStore::new();
    assert_eq!(storage_used(&s), Ok(0));
    insert_musica(&mut s, &track("a", "1", "X", "A", Some(100)));
    insert_musica(&mut s, &track("b", "2", "X", "B", None));
    insert_musica(&mut s, &track("c", "3", "X", "C", Some(23)));
    assert_eq!(storage_used(&s), Ok(123));
    insert_musica(&mut s, &track("d", "4", "X", "D", Some(i64::MAX)));
    assert!(storage_used(&s).is_err());
}

#[test]
fn random_pick_uses_draw() {
    let mut s = LocalStore::new();
    assert_eq!(musica_aleatoria_db(&s, 7), None);
    insert_musica(&mut s, &track("a", "01001", "X", "A", None));
    insert_musica(&mut s, &track("b", "01002", "X", "B", None));
    assert_eq!(musica_aleatoria_db(&s, 7).as_deref(), Some("01002"));
    assert_eq!(musica_aleatoria(&s, 4).as_deref(), Some("01001"));
}

#[test]
fn history_appends_with_fresh_ids() {
    let mut s = LocalStore::new();
    let a = registro_historico("01001", 1234);
    let b = registro_historico("01001", 1235);
    assert_eq!(a.codigo, "01001");
    assert_eq!(a.data_execucao, 1234);
    assert_eq!(a.id.len(), 36);
    assert_ne!(a.id, b.id);
    salvar_historico_db(&mut s, a);
    salvar_historico_db(&mut s, b);
    assert_eq!(count_musicas_local(&s), 0);
}

fn pending_setup() -> (LocalStore, Vec<SupabaseMusica>, Vec<ArquivoLocal>) {
    let mut s = LocalStore::new();
    insert_musica(&mut s, &track("id-00001", "00001", "Artist", "Song", Some(9)));
    let catalog: Vec<SupabaseMusica> = ["00001", "00002", "00003", "00004", "00005", "00006"]
        .iter()
        .map(|c| entry(c))
        .collect();
    let files = vec![file("00001.mp4", 9), file("00003.mp4", 9)];
    (s, catalog, files)
}

#[test]
fn batch_of_two_from_five_pending() {
    let (mut s, catalog, files) = pending_setup();
    let plan = download_batch(&s, &catalog, &files, Some(2));
    assert_eq!(plan.lote.len(), 2);
    assert_eq!(plan.lote[0].codigo, "00002");
    assert_eq!(plan.lote[1].codigo, "00003");
    assert_eq!(plan.resultado.remaining, 5);
    let mut res = plan.resultado.clone();
    for m in &plan.lote {
        let rec = apos_download(
            &mut res,
            m,
            Download::Salvo { arquivo: format!("/data/musicas/{}.mp4", m.codigo), bytes: 42 },
        )
        .unwrap();
        assert_eq!(rec.tamanho, Some(42));
        assert_eq!(apos_gravacao(&mut res, &mut s, &rec, &Ok(())), None);
    }
    assert_eq!(res.downloaded, 2);
    assert_eq!(res.remaining, 3);
    assert!(res.errors.is_empty());
    assert!(musica_existe(&s, "00002"));
}

#[test]
fn default_and_negative_batch_sizes() {
    let (s, catalog, files) = pending_setup();
    assert_eq!(download_batch(&s, &catalog, &files, None).lote.len(), 3);
    assert_eq!(download_batch(&s, &catalog, &files, Some(-1)).lote.len(), 5);
    assert_eq!(download_batch(&s, &catalog, &files, Some(0)).lote.len(), 0);
}

#[test]
fn failed_insert_hands_back_file_to_delete() {
    let (mut s, catalog, files) = pending_setup();
    let plan = download_batch(&s, &catalog, &files, Some(1));
    let mut res: DownloadResult = plan.resultado.clone();
    let rec = apos_download(
        &mut res,
        &plan.lote[0],
        Download::Salvo { arquivo: "/data/musicas/00002.mp4".to_string(), bytes: 7 },
    )
    .unwrap();
    let remove = apos_gravacao(&mut res, &mut s, &rec, &Err("disk full".to_string()));
    assert_eq!(remove.as_deref(), Some("/data/musicas/00002.mp4"));
    assert!(!musica_existe(&s, "00002"));
    assert_eq!(res.downloaded, 0);
    assert_eq!(res.errors, vec!["00002: DB error: disk full".to_string()]);
}

#[test]
fn failed_download_is_recorded() {
    let (s, catalog, files) = pending_setup();
    let plan = download_batch(&s, &catalog, &files, Some(1));
    let mut res = plan.resultado.clone();
    let rec = apos_download(
        &mut res,
        &plan.lote[0],
        Download::Falhou { arquivo: "/data/musicas/00002.mp4".to_string(), erro: "404".to_string() },
    );
    assert_eq!(rec.unwrap_err(), "/data/musicas/00002.mp4");
    assert_eq!(res.errors, vec!["00002: 404".to_string()]);
    assert_eq!(res.remaining, 5);
}

#[test]
fn reindex_attributes_only_catalog_files() {
    let mut s = LocalStore::new();
    insert_musica(&mut s, &track("x", "00001", "A", "B", Some(1)));
    let catalog = vec![entry("01009"), entry("00001")];
    let files = vec![
        file("1009.mp4", 500),
        file("00001.mp4", 1),
        file("5555.mp4", 9),
        file("cover.jpg", 3),
        file(".mp4", 3),
    ];
    let start = reindex_musicas(&Some(files.clone()), &Ok(catalog.clone())).unwrap();
    assert_eq!(start.total, 3);
    let mut res = start.clone();
    let mut written = Vec::new();
    for f in &files {
        if let Some(rec) = reindex_arquivo(&s, f, &catalog) {
            written.push(rec.codigo.clone());
            assert_eq!(rec.tamanho, Some(f.tamanho));
            assert_eq!(rec.arquivo, f.caminho);
            apos_reindex(&mut res, &mut s, &rec, &Ok(()));
        }
    }
    assert_eq!(written, vec!["01009".to_string()]);
    assert_eq!(res.reindexed, 1);
    assert!(!musica_existe(&s, "5555"));
    assert!(reindex_arquivo(&s, &file("1009.mp4", 500), &catalog).is_none());
}

#[test]
fn reindex_writes_entry_whose_id_is_indexed_under_another_code() {
    let mut s = LocalStore::new();
    insert_musica(&mut s, &track("id-01009", "07777", "A", "B", Some(1)));
    let catalog = vec![entry("01009")];
    let start = reindex_musicas(&Some(vec![file("1009.mp4", 5)]), &Ok(catalog.clone())).unwrap();
    let mut res = start.clone();
    let rec = reindex_arquivo(&s, &file("1009.mp4", 5), &catalog).unwrap();
    assert_eq!(rec.codigo, "01009");
    apos_reindex(&mut res, &mut s, &rec, &Ok(()));
    assert_eq!(res.reindexed, 1);
    assert!(musica_existe(&s, "01009"));
    assert_eq!(count_musicas_local(&s), 1);
}

#[test]
fn reindex_without_catalog_or_directory() {
    let off = reindex_musicas(&Some(vec![file("1.mp4", 1)]), &Err("no network".to_string())).unwrap_err();
    assert_eq!(off.total, 1);
    assert_eq!(off.reindexed, 0);
    assert_eq!(off.errors, vec!["Offline: no network".to_string()]);
    let none = reindex_musicas(&None, &Ok(vec![])).unwrap_err();
    assert_eq!(none.total, 0);
    assert!(none.errors.is_empty());
}

#[test]
fn reindex_insert_failure_is_recorded() {
    let mut s = LocalStore::new();
    let catalog = vec![entry("00007")];
    let start = reindex_musicas(&Some(vec![file("00007.mp4", 3)]), &Ok(catalog.clone())).unwrap();
    let mut res = start.clone();
    let rec = reindex_arquivo(&s, &file("00007.mp4", 3), &catalog).unwrap();
    apos_reindex(&mut res, &mut s, &rec, &Err("locked".to_string()));
    assert_eq!(res.reindexed, 0);
    assert_eq!(res.errors, vec!["00007: locked".to_string()]);
    assert!(!musica_existe(&s, "00007"));
}

#[test]
fn offline_status_counts() {
    let (s, catalog, _files) = pending_setup();
    let online = get_offline_status(&s, &Ok(catalog)).unwrap();
    assert_eq!(online.total_musicas, 6);
    assert_eq!(online.musicas_offline, 1);
    assert_eq!(online.musicas_online, 5);
    assert_eq!(online.storage_used, 9);
    let offline = get_offline_status(&s, &Err("down".to_string())).unwrap();
    assert_eq!(offline.total_musicas, 1);
    assert_eq!(offline.musicas_online, 0);
}

#[test]
fn app_state_keeps_data_dir() {
    assert_eq!(AppState::new("/var/data").data_dir, "/var/data");
}
