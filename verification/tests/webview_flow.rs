use lyricslens::webview::lyrics::{LyricLine, Lyrics, LyricsError};
use lyricslens::webview::media::mpris::{
    artistas_em_texto, estado_do_status, mesma_faixa, micros_em_ms, parse_track, Following,
};
use lyricslens::webview::media::{MediaEvent, PlaybackState, Track};
use lyricslens::webview::now_playing::{
    depois_da_ausencia, depois_da_rede, depois_do_cache, LyricsEvent, NowPlaying, Passo, Registro,
};

fn faixa(titulo: &str) -> Track {
    Track { title: titulo.into(), artist: "Radiohead".into(), ..Default::default() }
}

#[test]
fn lista_de_artistas_vira_texto_unico() {
    assert_eq!(
        artistas_em_texto(&["Jay-Z".to_string(), "".to_string(), "Linkin Park".to_string()]).as_deref(),
        Some("Jay-Z, Linkin Park")
    );
    assert_eq!(artistas_em_texto(&["".to_string()]), None);
}

#[test]
fn duracao_converte_de_micros_e_recusa_zero() {
    assert_eq!(micros_em_ms(251_000_000), Some(251_000));
    assert_eq!(micros_em_ms(0), None);
    assert_eq!(micros_em_ms(-5), None);
}

#[test]
fn metadados_viram_faixa() {
    let t = parse_track(
        Some("Creep".into()),
        Some("Radiohead".into()),
        None,
        Some(238_000_000),
        Some("".into()),
        Some("https://x".into()),
        "spotify",
    );
    assert_eq!(t.title, "Creep");
    assert_eq!(t.album, "");
    assert_eq!(t.duration_ms, Some(238_000));
    assert_eq!(t.art_url, None);
    assert_eq!(t.url.as_deref(), Some("https://x"));
    assert_eq!(t.source, "spotify");
    assert_eq!(estado_do_status("Playing"), PlaybackState::Playing);
    assert_eq!(estado_do_status("Paused"), PlaybackState::Paused);
    assert_eq!(estado_do_status("qualquer"), PlaybackState::Stopped);
}

#[test]
fn reler_metadados_avisa_so_o_que_mudou() {
    let mut f = Following::new("spotify".into());
    let avisos = f.refresh("Playing", faixa("Creep"));
    assert_eq!(avisos.len(), 2);
    assert!(matches!(avisos[0], MediaEvent::PlaybackChanged { state: PlaybackState::Playing }));
    assert!(matches!(&avisos[1], MediaEvent::TrackChanged { track } if track.title == "Creep"));
    assert!(f.refresh("Playing", faixa("Creep")).is_empty());
    assert!(f.refresh("Playing", Track::default()).is_empty(), "faixa vazia não é troca");
    let avisos = f.refresh("Paused", faixa("Anyone Can Play Guitar"));
    assert_eq!(avisos.len(), 2);
    assert!(mesma_faixa(&f.track, &faixa("Anyone Can Play Guitar")));
}

#[test]
fn a_troca_de_faixa_sobe_a_geracao_e_pede_letra() {
    let mut np = NowPlaying::new();
    assert!(np.consume(&MediaEvent::PlaybackChanged { state: PlaybackState::Playing }).is_none());
    let (t, g) = np.consume(&MediaEvent::TrackChanged { track: faixa("Creep") }).unwrap();
    assert_eq!(t.title, "Creep");
    assert_eq!(g, 1);
    assert!(np.clock.position_after(1_000) >= 1_000, "tocando, o relógio anda");
    assert!(np.consume(&MediaEvent::Seeked { position_ms: 42_000 }).is_none());
    assert!(np.clock.is_anchored());
    assert!(np.consume(&MediaEvent::Gone).is_none());
    assert!(np.track.is_none());
    assert_eq!(np.generation, 2, "sumir também invalida a busca em curso");
}

fn letra() -> Lyrics {
    Lyrics { lines: vec![LyricLine { at_ms: 0, text: "oi".into() }], ..Default::default() }
}

#[test]
fn cache_primeiro_rede_depois() {
    assert!(matches!(
        depois_do_cache("k".into(), Some(letra()), true),
        Passo::Avisar(LyricsEvent::Found { .. })
    ));
    assert!(matches!(depois_do_cache("k".into(), Some(letra()), false), Passo::Parar));
    assert!(matches!(depois_do_cache("k".into(), None, true), Passo::Seguir));
    assert!(matches!(depois_da_ausencia("k".into(), true, true), Passo::Seguir));
    assert!(matches!(
        depois_da_ausencia("k".into(), false, true),
        Passo::Avisar(LyricsEvent::NotFound { .. })
    ));
    assert!(matches!(depois_da_ausencia("k".into(), false, false), Passo::Parar));
}

#[test]
fn so_um_nao_existe_vira_ausencia_lembrada() {
    let (r, e) = depois_da_rede("k".into(), Ok(letra()), true);
    assert_eq!(r, Registro::Guardar);
    assert!(matches!(e, Some(LyricsEvent::Found { .. })));
    let (r, e) = depois_da_rede("k".into(), Err(LyricsError::NotFound), true);
    assert_eq!(r, Registro::LembrarAusencia);
    assert!(matches!(e, Some(LyricsEvent::NotFound { .. })));
    let (r, e) = depois_da_rede("k".into(), Err(LyricsError::Network("x".into())), true);
    assert_eq!(r, Registro::Nenhum);
    assert!(matches!(e, Some(LyricsEvent::NotFound { .. })));
    let (r, e) = depois_da_rede("k".into(), Ok(letra()), false);
    assert_eq!(r, Registro::Nenhum);
    assert!(e.is_none());
}
