use lyricslens::webview::autostart::{arquivo, citar, conteudo, executavel, is_enabled, set_enabled, Acao};

#[test]
fn o_desktop_sobe_escondido() {
    let texto = conteudo("/usr/bin/lyricslens");
    assert!(texto.contains("Exec=/usr/bin/lyricslens hide"));
}

#[test]
fn o_desktop_tem_o_cabecalho_que_a_sessao_espera() {
    let texto = conteudo("/usr/bin/lyricslens");
    assert!(texto.starts_with("[Desktop Entry]\n"));
    assert!(texto.contains("Type=Application\n"));
    assert!(texto.contains("Terminal=false\n"));
    assert!(texto.ends_with('\n'));
}

fn linha_exec(caminho: &str) -> String {
    conteudo(caminho)
        .lines()
        .find(|l| l.starts_with("Exec="))
        .expect("tem linha Exec")
        .to_string()
}

#[test]
fn caminho_com_espaco_vai_entre_aspas() {
    assert_eq!(
        linha_exec("/home/ana maria/.local/bin/lyricslens"),
        "Exec=\"/home/ana maria/.local/bin/lyricslens\" hide"
    );
}

#[test]
fn caminho_comum_nao_ganha_aspas_a_toa() {
    assert_eq!(linha_exec("/usr/bin/lyricslens"), "Exec=/usr/bin/lyricslens hide");
}

#[test]
fn caracteres_especiais_sao_escapados_dentro_das_aspas() {
    assert_eq!(
        linha_exec("/home/x/pasta $com \"aspas\"/lyricslens"),
        "Exec=\"/home/x/pasta \\$com \\\"aspas\\\"/lyricslens\" hide"
    );
    assert_eq!(citar("a'b"), "\"a'b\"");
}

#[test]
fn onde_fica_e_quem_chamar() {
    assert_eq!(
        arquivo(None, Some("/home/u")).as_deref(),
        Some("/home/u/.config/autostart/lyricslens.desktop")
    );
    assert_eq!(
        arquivo(Some("/cfg"), Some("/home/u")).as_deref(),
        Some("/cfg/autostart/lyricslens.desktop")
    );
    assert_eq!(arquivo(Some(""), None), None);
    assert_eq!(executavel(Some("/opt/app"), Some("/x")).as_deref(), Some("/opt/app/AppRun"));
    assert_eq!(executavel(None, Some("/x")).as_deref(), Some("/x"));
    assert!(is_enabled(Some("/a"), true));
    assert!(!is_enabled(None, true));
}

#[test]
fn ligar_e_desligar_viram_acoes() {
    assert_eq!(
        set_enabled(false, Some("/a/l.desktop"), Some("/bin/l")),
        Ok(Acao::Remover("/a/l.desktop".to_string()))
    );
    match set_enabled(true, Some("/a/l.desktop"), Some("/bin/l")) {
        Ok(Acao::Escrever { arquivo, conteudo: c }) => {
            assert_eq!(arquivo, "/a/l.desktop");
            assert_eq!(c, conteudo("/bin/l"));
        },
        outro => panic!("inesperado: {outro:?}"),
    }
    assert!(set_enabled(true, None, Some("/bin/l")).is_err());
    assert!(set_enabled(true, Some("/a"), None).is_err());
}
