use lyricslens::webview::cover::deezer::{capa_dos_resultados, escolher, vale_buscar, Album, Artista};
use lyricslens::webview::cover::{chave_do_album, parecidos, Cover, CoverError};

#[test]
fn a_chave_ignora_caixa_e_espaco() {
    assert_eq!(
        chave_do_album("  Radiohead ", "Pablo Honey"),
        chave_do_album("RADIOHEAD", "  pablo honey  ")
    );
    assert_eq!(chave_do_album(" Björk", "Homogenic "), "björk|homogenic");
}

#[test]
fn a_chave_separa_discos_diferentes_do_mesmo_artista() {
    assert_ne!(
        chave_do_album("Radiohead", "Pablo Honey"),
        chave_do_album("Radiohead", "OK Computer")
    );
}

#[test]
fn nomes_parecidos_ignoram_pontuacao_e_caixa() {
    assert!(parecidos("Björk", "björk"));
    assert!(parecidos("Sgt. Pepper's", "Sgt Peppers"));
    assert!(parecidos("A  Night   at the Opera", "A Night at the Opera"));
}

#[test]
fn nomes_diferentes_nao_casam() {
    assert!(!parecidos("Pablo Honey", "OK Computer"));
    assert!(!parecidos("Homogenic", "Homogenic (Live)"));
    assert!(!parecidos("Creep", "Creep (Acoustic)"));
}

fn album(artista: &str, titulo: &str, capa: Option<&str>) -> Album {
    Album {
        title: titulo.into(),
        artist: Artista { name: artista.into() },
        cover_xl: capa.map(String::from),
        cover_big: None,
    }
}

#[test]
fn escolhe_o_album_do_artista_certo() {
    let achados = vec![
        album("Vitamin String Quartet", "Pablo Honey", Some("errada")),
        album("Radiohead", "Pablo Honey", Some("certa")),
    ];
    let e = escolher(&achados, "Radiohead", "Pablo Honey").unwrap();
    assert_eq!(e.capa(), Some("certa"));
}

#[test]
fn o_titulo_exato_ganha_do_parecido() {
    let achados = vec![
        album("Björk", "Homogenic (Live)", Some("ao vivo")),
        album("Björk", "Homogenic", Some("estudio")),
    ];
    let e = escolher(&achados, "Björk", "Homogenic").unwrap();
    assert_eq!(e.capa(), Some("estudio"));
}

#[test]
fn sem_o_artista_nos_resultados_nao_inventa() {
    let achados = vec![album("boy pablo", "Honey - Single", Some("errada"))];
    assert!(escolher(&achados, "Radiohead", "Pablo Honey").is_none());
}

#[test]
fn artista_certo_com_titulo_diferente_ainda_serve() {
    let achados = vec![album("Radiohead", "Pablo Honey (Remastered)", Some("ok"))];
    let e = escolher(&achados, "Radiohead", "Pablo Honey").unwrap();
    assert_eq!(e.capa(), Some("ok"));
}

#[test]
fn album_sem_capa_publicada_nao_vira_url_vazia() {
    let achados = vec![album("Radiohead", "Pablo Honey", None)];
    assert!(escolher(&achados, "Radiohead", "Pablo Honey").unwrap().capa().is_none());
    let vazia = vec![album("Radiohead", "Pablo Honey", Some(""))];
    assert!(escolher(&vazia, "Radiohead", "Pablo Honey").unwrap().capa().is_none());
}

#[test]
fn sem_artista_ou_album_nem_vai_a_rede() {
    assert!(!vale_buscar("", "Pablo Honey"));
    assert!(!vale_buscar("Radiohead", "  "));
    assert!(vale_buscar("Radiohead", "Pablo Honey"));
}

#[test]
fn a_capa_dos_resultados_vem_marcada_como_deezer() {
    let achados = vec![
        Album { cover_big: Some("grande".into()), ..album("Radiohead", "Pablo Honey", None) },
    ];
    assert_eq!(
        capa_dos_resultados(&achados, "Radiohead", "Pablo Honey"),
        Some(Cover { url: "grande".into(), source: "deezer".into() })
    );
    assert_eq!(capa_dos_resultados(&[], "Radiohead", "Pablo Honey"), None);
    assert_eq!(CoverError::Network("x".into()).message(), "falha de rede: x");
}
