use lyricslens::webview::media::mpris::{Escolha, MprisProvider};

#[test]
fn o_primeiro_tick_procura_e_depois_a_cada_vinte() {
    assert!(MprisProvider::hora_de_procurar(1));
    assert!(!MprisProvider::hora_de_procurar(2));
    assert!(!MprisProvider::hora_de_procurar(20));
    assert!(MprisProvider::hora_de_procurar(21));
    assert!(MprisProvider::hora_de_procurar(41));
}

#[test]
fn o_mesmo_player_segue_como_esta() {
    let r = MprisProvider::depois_da_busca(
        Some("org.mpris.MediaPlayer2.spotify"),
        Some("org.mpris.MediaPlayer2.spotify".to_owned()),
    );
    assert_eq!(r, Escolha::Manter);
}

#[test]
fn outro_player_e_seguido_do_zero() {
    let r = MprisProvider::depois_da_busca(
        Some("org.mpris.MediaPlayer2.spotify"),
        Some("org.mpris.MediaPlayer2.vlc".to_owned()),
    );
    assert_eq!(r, Escolha::Seguir("org.mpris.MediaPlayer2.vlc".to_owned()));
    let r = MprisProvider::depois_da_busca(None, Some("org.mpris.MediaPlayer2.vlc".to_owned()));
    assert_eq!(r, Escolha::Seguir("org.mpris.MediaPlayer2.vlc".to_owned()));
}

#[test]
fn sem_player_avisa_uma_vez() {
    assert_eq!(
        MprisProvider::depois_da_busca(Some("org.mpris.MediaPlayer2.vlc"), None),
        Escolha::Sumiu
    );
    assert_eq!(MprisProvider::depois_da_busca(None, None), Escolha::Nada);
    let _ = MprisProvider::default();
}
