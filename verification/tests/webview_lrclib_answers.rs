use lyricslens::webview::lyrics::lrclib::montar_letra;
use lyricslens::webview::lyrics::Lyrics;

/// What an LRCLIB answer with no synced lyrics becomes: there are no timed
/// lines to read, so only the rest of the answer counts.
fn faixa(plain: Option<&str>, instrumental: bool) -> Lyrics {
    montar_letra(707294, Vec::new(), plain.map(str::to_string), instrumental)
}

#[test]
fn sem_sincronia_ainda_serve_como_texto() {
    let l = faixa(Some("eis o melhor e o pior de mim"), false);
    assert!(l.lines.is_empty());
    assert!(!l.is_empty(), "letra corrida ainda é letra");
    assert_eq!(l.provider_id.as_deref(), Some("707294"));
    assert_eq!(l.source, "lrclib");
}

#[test]
fn resposta_sem_nada_util_conta_como_vazia() {
    let l = faixa(None, false);
    assert!(l.is_empty());
}

#[test]
fn instrumental_nao_e_vazio() {
    // Saber que é instrumental é resposta: o overlay para de procurar.
    let l = faixa(None, true);
    assert!(!l.is_empty());
    assert!(l.instrumental);
}

#[test]
fn plain_so_com_espaco_e_descartado() {
    let l = faixa(Some("   \n  "), false);
    assert!(l.is_empty());
}
