use lyricslens::webview::lyrics::lrc::{offset_da_tag, parse_tag, ParsedLrc};
use lyricslens::webview::lyrics::LyricLine;

fn linha(at_ms: i64, text: &str) -> LyricLine {
    LyricLine { at_ms, text: text.to_owned() }
}

#[test]
fn ordena_e_remove_a_duplicata_exata() {
    let p = ParsedLrc::em_ordem(
        vec![linha(30_000, "b"), linha(10_000, "a"), linha(30_000, "b")],
        0,
    );
    assert_eq!(p.lines, vec![linha(10_000, "a"), linha(30_000, "b")]);
}

#[test]
fn o_mesmo_tempo_guarda_a_ordem_do_arquivo() {
    let p = ParsedLrc::em_ordem(
        vec![linha(20_000, "segunda"), linha(5_000, "x"), linha(20_000, "primeira")],
        0,
    );
    assert_eq!(
        p.lines,
        vec![linha(5_000, "x"), linha(20_000, "segunda"), linha(20_000, "primeira")]
    );
}

#[test]
fn o_offset_e_descontado_de_cada_tempo() {
    let p = ParsedLrc::em_ordem(vec![linha(10_000, "linha")], 500);
    assert_eq!(p.offset_ms, 500);
    assert_eq!(p.lines[0].at_ms, 9_500);

    let p = ParsedLrc::em_ordem(vec![linha(10_000, "linha")], -250);
    assert_eq!(p.lines[0].at_ms, 10_250);
}

#[test]
fn a_linha_vazia_fica() {
    let p = ParsedLrc::em_ordem(
        vec![linha(10_000, "cantando"), linha(20_000, ""), linha(40_000, "voltou")],
        0,
    );
    assert_eq!(p.lines.len(), 3);
    assert_eq!(p.lines[1], linha(20_000, ""));
}

#[test]
fn o_refrao_repetido_em_tempos_diferentes_nao_e_duplicata() {
    let p = ParsedLrc::em_ordem(vec![linha(90_000, "refrão"), linha(12_000, "refrão")], 0);
    assert_eq!(p.lines, vec![linha(12_000, "refrão"), linha(90_000, "refrão")]);
}

#[test]
fn toda_repeticao_exata_sai() {
    let p = ParsedLrc::em_ordem(
        vec![linha(1_000, "a"), linha(1_000, "b"), linha(1_000, "a")],
        0,
    );
    assert_eq!(p.lines, vec![linha(1_000, "a"), linha(1_000, "b")]);
}

#[test]
fn tags_de_metadado_sao_lidas() {
    assert_eq!(
        parse_tag("[ar:Marisa Monte]"),
        Some(("ar".to_owned(), "Marisa Monte".to_owned()))
    );
    assert_eq!(
        parse_tag("[ offset : +500 ]"),
        Some(("offset".to_owned(), "+500".to_owned()))
    );
    assert_eq!(parse_tag("[:vazio]"), Some((String::new(), "vazio".to_owned())));
}

#[test]
fn timestamp_nao_e_tag() {
    assert_eq!(parse_tag("[00:04.04]eis o melhor"), None);
    assert_eq!(parse_tag("[00:04.04]"), None);
    assert_eq!(parse_tag("isso não é LRC"), None);
    assert_eq!(parse_tag("[sem dois pontos]"), None);
    assert_eq!(parse_tag("["), None);
}

#[test]
fn o_offset_vem_da_tag_em_qualquer_caixa() {
    assert_eq!(offset_da_tag("offset", "+500"), Some(500));
    assert_eq!(offset_da_tag("OffSet", "-250"), Some(-250));
    assert_eq!(offset_da_tag("offset", " + 1 0 "), None);
    assert_eq!(offset_da_tag("offset", "+1+0"), Some(10));
    assert_eq!(offset_da_tag("offset", "meio"), None);
    assert_eq!(offset_da_tag("ar", "500"), None);
}
