use lyricslens::update::{due, newer, newer_release, Stamp};
use lyricslens::webview::update::{update_info, versao, ATUAL};

#[test]
fn a_later_version_is_newer() {
    assert!(newer("0.2.0", "0.1.9"));
    assert!(newer("0.1.10", "0.1.9"));
    assert!(newer("1.0.0", "0.9.9"));
}

#[test]
fn the_same_version_is_not() {
    assert!(!newer("0.1.9", "0.1.9"));
    assert!(!newer("0.1.8", "0.1.9"));
}

#[test]
fn nonsense_does_not_claim_to_be_newer() {
    assert!(!newer("", "0.1.9"));
    assert!(!newer("latest", "0.1.9"));
}

#[test]
fn a_longer_version_with_the_same_start_is_newer() {
    assert!(newer("0.1.9.1", "0.1.9"));
    assert!(newer(" 0.2 ", "0.1.9"));
}

#[test]
fn le_versao_de_varios_formatos() {
    assert_eq!(versao("0.2.1"), Some((0, 2, 1)));
    assert_eq!(versao("v0.2.1"), Some((0, 2, 1)));
    // Formato exato que o release-please gera para este repositório.
    assert_eq!(versao("lyricslens-v0.2.1"), Some((0, 2, 1)));
    assert_eq!(versao("1.10.3-beta"), Some((1, 10, 3)));
}

#[test]
fn recusa_o_que_nao_e_versao() {
    assert_eq!(versao("sem numero"), None);
    assert_eq!(versao("v1.2"), None, "faltando o patch não serve");
    assert_eq!(versao(""), None);
}

#[test]
fn compara_por_componente_e_nao_por_texto() {
    // Comparado como texto, "0.10.0" viria antes de "0.9.0".
    assert!(versao("0.10.0") > versao("0.9.0"));
    assert!(versao("1.0.0") > versao("0.99.99"));
    assert!(versao("0.2.2") > versao("0.2.1"));
    assert_eq!(versao("0.2.1"), versao("v0.2.1"));
}

#[test]
fn a_versao_compilada_e_legivel() {
    assert!(
        versao(ATUAL).is_some(),
        "a versão do próprio pacote precisa ser reconhecível: {ATUAL}"
    );
}

#[test]
fn pedaco_sem_versao_nao_impede_o_seguinte() {
    assert_eq!(versao("1.2 e depois 3.4.5"), Some((3, 4, 5)));
    assert_eq!(versao("99999999999.1.1 ou 1.1.1"), Some((1, 1, 1)));
}

#[test]
fn aviso_de_versao_nova() {
    let info = update_info("lyricslens-v9.0.0", true);
    assert_eq!(info.current, ATUAL);
    assert_eq!(info.latest.as_deref(), Some("9.0.0"));
    assert!(info.available);
    assert!(info.can_apply);

    let info = update_info("v0.0.1", false);
    assert!(!info.available);
    assert!(!info.can_apply);

    let info = update_info("sem versão", false);
    assert_eq!(info.latest, None);
    assert!(!info.available);
}

#[test]
fn it_asks_once_a_day() {
    assert!(due(Stamp::Missing));
    assert!(!due(Stamp::Nowhere));
    assert!(!due(Stamp::Age(Some(3_600))));
    assert!(due(Stamp::Age(Some(86_400))));
    assert!(!due(Stamp::Age(None)));
}

#[test]
fn a_tag_names_a_release_without_its_v() {
    assert_eq!(newer_release("v0.2.0", "0.1.0"), Some("0.2.0".to_owned()));
    assert_eq!(newer_release("vv1.0", "0.1.0"), Some("1.0".to_owned()));
    assert_eq!(newer_release("v0.1.0", "0.1.0"), None);
    assert_eq!(newer_release("latest", "0.1.0"), None);
}
