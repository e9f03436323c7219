use lyricslens::webview::media::mpris::{pick_player, source_name};
use lyricslens::webview::media::{MediaError, PlaybackState, Track};

#[test]
fn extrai_o_nome_da_fonte_do_bus() {
    assert_eq!(source_name("org.mpris.MediaPlayer2.firefox.instance_1_32"), "firefox");
    assert_eq!(source_name("org.mpris.MediaPlayer2.spotify"), "spotify");
    assert_eq!(source_name("org.mpris.MediaPlayer2.vlc.instance7"), "vlc");
}

#[test]
fn chave_da_faixa_ignora_caixa_e_espaco() {
    let a = Track {
        title: " Infinito Particular ".into(),
        artist: "Marisa Monte".into(),
        album: "Infinito Particular".into(),
        ..Default::default()
    };
    let b = Track {
        title: "infinito particular".into(),
        artist: "MARISA MONTE".into(),
        album: "Infinito particular".into(),
        ..Default::default()
    };
    assert_eq!(a.key(), b.key());
    assert_eq!(a.key(), "marisa monte|infinito particular|infinito particular");
}

#[test]
fn faixa_sem_titulo_e_sem_artista_e_vazia() {
    assert!(Track::default().is_empty());
    let t = Track { album: "só álbum".into(), ..Default::default() };
    assert!(t.is_empty());
    let t = Track { title: "x".into(), ..Default::default() };
    assert!(!t.is_empty());
}

#[test]
fn so_tocando_e_tocando() {
    assert!(PlaybackState::Playing.is_playing());
    assert!(!PlaybackState::Paused.is_playing());
    assert!(!PlaybackState::Stopped.is_playing());
}

#[test]
fn erro_de_barramento_diz_o_motivo() {
    assert_eq!(MediaError::Bus("sem sessão".into()).message(), "falha no barramento: sem sessão");
}

#[test]
fn escolha_de_player_prefere_quem_toca() {
    let nomes = vec![
        "org.mpris.MediaPlayer2.firefox".to_string(),
        "org.mpris.MediaPlayer2.spotify".to_string(),
    ];
    assert_eq!(pick_player(&nomes, &[Some(false), Some(true)], None), Some(1));
    // Ninguém tocando: fica com o atual, se ele ainda responde.
    assert_eq!(
        pick_player(&nomes, &[Some(false), Some(false)], Some("org.mpris.MediaPlayer2.spotify")),
        Some(1)
    );
    // Senão, o primeiro que respondeu.
    assert_eq!(pick_player(&nomes, &[None, Some(false)], None), Some(1));
    assert_eq!(pick_player(&nomes, &[None, None], None), None);
}
