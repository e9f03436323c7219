use lyricslens::webview::i18n::UiError;
use lyricslens::webview::lyrics::normalize::{preparar, preparar_se_cabe, Consulta};
use lyricslens::webview::lyrics::{LyricLine, Lyrics, LyricsError};

#[test]
fn tira_o_lixo_classico_do_youtube() {
    let c = preparar("", "Numb [Official Music Video] | HD");
    assert_eq!(c.title, "Numb");
}

#[test]
fn preserva_informacao_de_versao() {
    // Isto ajuda a casar a gravação certa — não é ruído.
    let c = preparar("Linkin Park", "Numb (Remastered 2011)");
    assert_eq!(c.title, "Numb (Remastered 2011)");
}

#[test]
fn separa_artista_do_titulo_quando_o_canal_e_generico() {
    let c = preparar("LinkinParkVEVO", "Linkin Park - Numb (Official Video)");
    assert_eq!(c.artist, "Linkin Park");
    assert_eq!(c.title, "Numb");
}

#[test]
fn artista_de_verdade_ganha_do_hifen_no_titulo() {
    let c = preparar("Marisa Monte", "Infinito Particular");
    assert_eq!(c.artist, "Marisa Monte");
    assert_eq!(c.title, "Infinito Particular");
}

#[test]
fn remove_o_sufixo_topic_do_youtube_music() {
    let c = preparar("Marisa Monte - Topic", "Infinito Particular");
    assert_eq!(c.artist, "Marisa Monte");
}

#[test]
fn corta_participacao() {
    let c = preparar("Jay-Z", "Numb / Encore feat. Linkin Park");
    assert_eq!(c.title, "Numb / Encore");
}

#[test]
fn nao_engole_parenteses_sem_fechamento() {
    let c = preparar("", "Música (ao vivo");
    assert_eq!(c.title, "Música ao vivo");
}

#[test]
fn metadado_ja_limpo_passa_intacto() {
    let c = preparar("Michael Jackson", "Butterflies");
    assert_eq!(c.artist, "Michael Jackson");
    assert_eq!(c.title, "Butterflies");
}

#[test]
fn artista_verdadeiro_com_hifen_no_titulo_fica() {
    let c = preparar("Marisa Monte", "Ainda Bem - Ao Vivo");
    assert_eq!(
        c,
        Consulta { artist: "Marisa Monte".to_string(), title: "Ainda Bem - Ao Vivo".to_string() }
    );
}

#[test]
fn travessoes_e_blocos_vazios_somem() {
    let c = preparar("", "-- Música () --");
    assert_eq!(c.title, "Música");
}

#[test]
fn corte_no_meio_de_um_caractere_nao_acontece() {
    // 'İ' vira dois caracteres em caixa baixa, e três bytes em vez de dois:
    // com cinco deles, o byte da marca no texto em caixa baixa cai no meio do
    // 'é' do texto recebido.
    assert_eq!(preparar_se_cabe("", "İİİİİ ft.é"), None);
    assert!(preparar_se_cabe("", "Numb ft. X").is_some());
}

#[test]
fn letra_vazia_e_letra_com_conteudo() {
    assert!(Lyrics::default().is_empty());
    let l = Lyrics {
        lines: vec![LyricLine { at_ms: 0, text: "oi".to_string() }],
        ..Default::default()
    };
    assert!(!l.is_empty());
    let l = Lyrics { instrumental: true, ..Default::default() };
    assert!(!l.is_empty());
    let l = Lyrics { plain: Some("corrida".to_string()), ..Default::default() };
    assert!(!l.is_empty());
}

#[test]
fn falhas_de_busca_viram_codigos_de_tela() {
    let e: UiError = LyricsError::NotFound.into();
    assert_eq!(e.to_text(), "lyrics.notFound");
    let e: UiError = LyricsError::Network("timeout".to_string()).into();
    assert_eq!(e.to_text(), "lyrics.network (motivo=timeout)");
    let e: UiError = LyricsError::Decode("json".to_string()).into();
    assert_eq!(e.to_text(), "lyrics.decode (motivo=json)");
    assert_eq!(LyricsError::Network("x".to_string()).message(), "falha de rede: x");
    assert_eq!(LyricsError::NotFound.message(), "letra não encontrada");
}
