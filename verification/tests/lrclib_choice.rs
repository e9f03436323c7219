use lyricslens::lyrics::lrclib::{best, synced, Record, AGENT};
use lyricslens::webview::lyrics::lrclib::{
    achada, depois_da_busca, depois_da_exata, escolher, montar_letra, tem_sincronia, Passo, USER_AGENT,
};
use lyricslens::webview::lyrics::{Candidate, LyricLine, Lyrics, LyricsError};

fn record(name: &str, seconds: u64, lyrics: Option<&str>) -> Record {
    Record {
        track_name: name.to_owned(),
        artist_name: "Someone".to_owned(),
        duration_ms: Some(seconds * 1000),
        instrumental: false,
        synced_lyrics: lyrics.map(str::to_owned),
    }
}

const SYNCED: &str = "[00:01.00]a line";

#[test]
fn the_agent_names_the_app_and_its_version() {
    assert!(AGENT.starts_with("LyricsLens/"));
    assert!(AGENT.contains("0.1.0"));
    assert!(USER_AGENT.contains("0.1.0"));
}

#[test]
fn a_record_without_synced_lyrics_is_no_use() {
    assert!(synced(&record("x", 100, None)).is_none());
    assert!(synced(&record("x", 100, Some("no timestamps here"))).is_none());
}

#[test]
fn an_instrumental_record_is_no_use_either() {
    let mut instrumental = record("x", 100, Some(SYNCED));
    instrumental.instrumental = true;
    assert!(synced(&instrumental).is_none());
    let found = synced(&record("x", 100, Some(SYNCED))).expect("usable");
    assert_eq!(found.lrc, SYNCED);
    assert_eq!(found.lyrics.lines.len(), 1);
}

#[test]
fn the_closest_duration_wins() {
    let records = vec![record("live", 240, Some(SYNCED)), record("album", 200, Some(SYNCED))];
    let picked = best(records, Some(201_000)).expect("a match");
    assert_eq!(picked.track_name, "album");
}

#[test]
fn a_recording_of_a_very_different_length_is_not_the_same_song() {
    let records = vec![record("extended mix", 600, Some(SYNCED))];
    assert!(best(records, Some(200_000)).is_none());
}

#[test]
fn without_a_duration_the_first_usable_result_is_taken() {
    let records = vec![record("no lyrics", 200, None), record("usable", 999, Some(SYNCED))];
    let picked = best(records, None).expect("a match");
    assert_eq!(picked.track_name, "usable");
}

#[test]
fn nothing_usable_means_nothing() {
    assert!(best(Vec::new(), None).is_none());
    assert!(best(vec![record("x", 200, None)], Some(200_000)).is_none());
}

#[test]
fn equally_close_keeps_the_first() {
    let records = vec![
        record("first", 198, Some(SYNCED)),
        record("second", 202, Some(SYNCED)),
    ];
    assert_eq!(best(records, Some(200_000)).unwrap().track_name, "first");
}

fn cand(id: &str, dur_s: Option<u64>, synced: bool) -> Candidate {
    Candidate {
        provider_id: id.into(),
        title: "1 Thing".into(),
        artist: "Amerie".into(),
        album: "Touch".into(),
        duration_ms: dur_s.map(|s| s * 1000),
        has_synced: synced,
    }
}

#[test]
fn escolhe_a_duracao_mais_proxima() {
    let cs = [
        cand("longe", Some(179), true),
        cand("perto", Some(236), true),
        cand("medio", Some(232), true),
    ];
    let e = escolher(&cs, Some(237_000)).expect("devia escolher");
    assert_eq!(e.provider_id, "perto");
}

#[test]
fn ignora_candidato_sem_sincronia() {
    let cs = [cand("exato_sem_sync", Some(237), false), cand("distante_com_sync", Some(232), true)];
    let e = escolher(&cs, Some(237_000)).unwrap();
    assert_eq!(e.provider_id, "distante_com_sync");
}

#[test]
fn recusa_gravacao_de_duracao_incompativel() {
    let cs = [cand("ao_vivo", Some(360), true)];
    assert!(escolher(&cs, Some(237_000)).is_none());
}

#[test]
fn sem_duracao_conhecida_aceita_o_primeiro_sincronizado() {
    let cs = [cand("a", None, false), cand("b", Some(300), true)];
    let e = escolher(&cs, None).unwrap();
    assert_eq!(e.provider_id, "b");
}

#[test]
fn lista_vazia_nao_escolhe_nada() {
    assert!(escolher(&[], Some(237_000)).is_none());
}

#[test]
fn com_duracao_ganha_de_sem_duracao() {
    let cs = [cand("sem", None, true), cand("com", Some(240), true)];
    assert_eq!(escolher(&cs, Some(237_000)).unwrap().provider_id, "com");
}

#[test]
fn letra_montada_da_resposta() {
    let l = montar_letra(
        707294,
        vec![LyricLine { at_ms: 4_040, text: "eis o melhor".into() }],
        None,
        false,
    );
    assert_eq!(l.lines.len(), 1);
    assert_eq!(l.provider_id.as_deref(), Some("707294"));
    assert_eq!(l.source, "lrclib");

    let l = montar_letra(1, Vec::new(), Some("eis o melhor e o pior de mim".into()), false);
    assert!(!l.is_empty(), "letra corrida ainda é letra");
    let l = montar_letra(1, Vec::new(), Some("   \n  ".into()), false);
    assert!(l.is_empty());
    let l = montar_letra(-5, Vec::new(), None, true);
    assert!(!l.is_empty());
    assert_eq!(l.provider_id.as_deref(), Some("-5"));

    assert!(matches!(achada(Lyrics::default()), Err(LyricsError::NotFound)));
    assert!(achada(l).is_ok());
    assert!(tem_sincronia(&Some("[00:01]x".into())));
    assert!(!tem_sincronia(&Some("  ".into())));
    assert!(!tem_sincronia(&None));
}

fn letra_achada() -> Lyrics {
    montar_letra(7, Vec::new(), Some("texto".into()), false)
}

#[test]
fn a_exata_que_acha_termina_a_busca() {
    match depois_da_exata(Ok(letra_achada())) {
        Passo::Fim(Ok(l)) => assert_eq!(l.provider_id.as_deref(), Some("7")),
        outro => panic!("{outro:?}"),
    }
}

#[test]
fn a_exata_que_nao_acha_leva_a_busca_ampla() {
    assert!(matches!(depois_da_exata(Err(LyricsError::NotFound)), Passo::BuscaAmpla));
}

#[test]
fn falha_de_rede_na_exata_nao_insiste() {
    match depois_da_exata(Err(LyricsError::Network("HTTP 500".into()))) {
        Passo::Fim(Err(LyricsError::Network(m))) => assert_eq!(m, "HTTP 500"),
        outro => panic!("{outro:?}"),
    }
}

#[test]
fn a_busca_ampla_busca_o_escolhido_pelo_id() {
    let cs = vec![cand("1", Some(300), true), cand("2", Some(240), true), cand("3", Some(241), false)];
    match depois_da_busca(Ok(cs), Some(241_000)) {
        Passo::PorId(id) => assert_eq!(id, "2"),
        outro => panic!("{outro:?}"),
    }
}

#[test]
fn a_busca_ampla_sem_elegivel_nao_acha() {
    let cs = vec![cand("1", Some(300), false)];
    assert!(matches!(depois_da_busca(Ok(cs), Some(241_000)), Passo::Fim(Err(LyricsError::NotFound))));
    assert!(matches!(
        depois_da_busca(Err(LyricsError::Decode("x".into())), None),
        Passo::Fim(Err(LyricsError::Decode(_)))
    ));
}
