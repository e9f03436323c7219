use lyricslens::webview::log::{
    anterior, arquivo, civil_de_dias, diretorio, iso_de_epoch, linha, rotacionar, Nivel,
    LIMITE_BYTES,
};

#[test]
fn epoch_zero_e_a_data_de_referencia() {
    assert_eq!(iso_de_epoch(0), "1970-01-01T00:00:00Z");
}

#[test]
fn converte_um_instante_conhecido() {
    // 2026-08-04T17:45:12Z, conferido contra `date -u -d @1785865512`.
    assert_eq!(iso_de_epoch(1_785_865_512), "2026-08-04T17:45:12Z");
}

/// O 29 de fevereiro é onde toda aritmética de data caseira quebra.
#[test]
fn acerta_o_dia_bissexto() {
    assert_eq!(iso_de_epoch(1_709_208_000), "2024-02-29T12:00:00Z");
    assert_eq!(iso_de_epoch(951_825_600), "2000-02-29T12:00:00Z");
    assert_eq!(iso_de_epoch(-2_203_891_200), "1900-03-01T00:00:00Z");
}

#[test]
fn viradas_de_ano_e_de_dia() {
    assert_eq!(iso_de_epoch(1_767_225_599), "2025-12-31T23:59:59Z");
    assert_eq!(iso_de_epoch(1_767_225_600), "2026-01-01T00:00:00Z");
}

#[test]
fn aguenta_tempo_negativo() {
    assert_eq!(iso_de_epoch(-1), "1969-12-31T23:59:59Z");
    assert_eq!(iso_de_epoch(-86_400), "1969-12-31T00:00:00Z");
}

#[test]
fn anos_extremos_nao_entram_em_panico() {
    assert_eq!(civil_de_dias(0), (1970, 1, 1));
    assert_eq!(civil_de_dias(-719_468), (0, 3, 1));
    let longe = iso_de_epoch(i64::MIN);
    assert!(longe.starts_with('-'), "{longe}");
    let longe = iso_de_epoch(i64::MAX);
    assert!(longe.ends_with('Z'), "{longe}");
}

#[test]
fn o_diretorio_respeita_o_xdg_state_home() {
    assert_eq!(
        diretorio(Some("/estado"), Some("/home/u")).as_deref(),
        Some("/estado/lyricslens")
    );
    assert_eq!(
        diretorio(Some(""), Some("/home/u")).as_deref(),
        Some("/home/u/.local/state/lyricslens")
    );
    assert_eq!(
        diretorio(None, Some("/home/u/")).as_deref(),
        Some("/home/u/.local/state/lyricslens")
    );
    assert_eq!(diretorio(None, None), None);
    assert_eq!(
        arquivo(None, Some("/home/u")).as_deref(),
        Some("/home/u/.local/state/lyricslens/lyricslens.log")
    );
    assert_eq!(
        anterior(Some("/x"), None).as_deref(),
        Some("/x/lyricslens/lyricslens.log.1")
    );
}

#[test]
fn rotaciona_so_no_teto() {
    assert!(!rotacionar(LIMITE_BYTES - 1));
    assert!(rotacionar(LIMITE_BYTES));
    assert_eq!(LIMITE_BYTES, 1024 * 1024);
}

#[test]
fn a_linha_traz_nivel_alvo_e_mensagem() {
    assert_eq!(
        linha("1970-01-01T00:00:00Z", Nivel::Aviso, "overlay", "sumiu"),
        "1970-01-01T00:00:00Z [aviso] overlay: sumiu"
    );
    assert_eq!(Nivel::Info.rotulo(), "info");
    assert_eq!(Nivel::Erro.rotulo(), "erro");
}
