use lyricslens::webview::i18n::{da_variavel, idioma_das_variaveis, Language, UiError};

#[test]
fn reconhece_portugues_em_qualquer_forma() {
    for valor in ["pt_BR.UTF-8", "pt_BR", "pt", "pt-BR", "PT_br.utf8", "pt_PT"] {
        assert_eq!(da_variavel(valor), Language::PtBr, "não casou: {valor}");
    }
}

#[test]
fn qualquer_outro_idioma_cai_no_ingles() {
    for valor in ["en_US.UTF-8", "es_ES", "fr_FR", "de_DE", "ja_JP.UTF-8"] {
        assert_eq!(da_variavel(valor), Language::En, "não casou: {valor}");
    }
}

/// `C` e `POSIX` são "sem localização", não "português".
#[test]
fn locale_neutro_cai_no_ingles() {
    for valor in ["C", "POSIX", "C.UTF-8", ""] {
        assert_eq!(da_variavel(valor), Language::En, "não casou: {valor}");
    }
}

/// O sufixo de modificador (`@euro`) não pode virar parte do idioma.
#[test]
fn descarta_codificacao_e_modificador() {
    assert_eq!(da_variavel("pt_BR.ISO-8859-1@euro"), Language::PtBr);
    assert_eq!(da_variavel("de_DE@euro"), Language::En);
}

/// `Auto` é preferência, nunca resultado de detecção.
#[test]
fn deteccao_nunca_devolve_auto() {
    for valor in ["pt_BR", "en_US", "C", "xx_YY", ""] {
        assert_ne!(da_variavel(valor), Language::Auto);
    }
}

#[test]
fn display_mostra_codigo_e_parametros() {
    let erro = UiError::new("autostart.write").arg("motivo", "permissão negada");
    assert_eq!(erro.to_text(), "autostart.write (motivo=permissão negada)");
    assert_eq!(UiError::new("lyrics.notFound").to_text(), "lyrics.notFound");
}

#[test]
fn erro_guarda_codigo_e_parametros() {
    let erro = UiError::new("hotkey.refused").arg("atalho", "SUPER, L");
    assert_eq!(erro.code(), "hotkey.refused");
    assert_eq!(
        erro.args(),
        &vec![("atalho".to_string(), "SUPER, L".to_string())]
    );
    assert!(UiError::new("lyrics.notFound").args().is_empty());
}

#[test]
fn parametros_ficam_em_ordem_de_chave_e_a_mesma_chave_troca_o_valor() {
    let erro = UiError::new("x")
        .arg("b", "2")
        .arg("a", "1")
        .arg("c", "3")
        .arg("b", "dois");
    assert_eq!(erro.to_text(), "x (a=1, b=dois, c=3)");
    let copia = erro.clone();
    assert_eq!(copia.to_text(), erro.to_text());
}

#[test]
fn a_primeira_variavel_preenchida_decide() {
    let valores = vec![
        None,
        Some("   ".to_string()),
        Some("pt_BR.UTF-8".to_string()),
        Some("en_US".to_string()),
    ];
    assert_eq!(idioma_das_variaveis(&valores), Language::PtBr);
    assert_eq!(idioma_das_variaveis(&[None, None]), Language::En);
    assert_eq!(
        idioma_das_variaveis(&[Some("C".to_string()), Some("pt_BR".to_string())]),
        Language::En
    );
}
