use lyricslens::webview::lyrics::lrc::{
    carimbos, content_lines, entries_of_line, instante, linha_lida, parse_lido, segundos_do_arquivo,
    timestamp_parts, ParsedLrc,
};
use lyricslens::webview::lyrics::LyricLine;

/// The seconds of a timestamp, as the webview front end reads them: a
/// floating-point number rounded to the millisecond.
fn seconds_ms(seconds: &str) -> Option<i64> {
    let seg: f64 = seconds.parse().ok()?;
    if !seg.is_finite() || seg < 0.0 {
        return None;
    }
    Some((seg * 1000.0).round() as i64)
}

/// The whole reader: the library's, given the seconds read as above.
fn parse(lrc: &str) -> ParsedLrc {
    let seconds: Vec<Vec<Option<i64>>> = segundos_do_arquivo(lrc)
        .iter()
        .map(|line| line.iter().map(|s| seconds_ms(s)).collect())
        .collect();
    parse_lido(lrc, &seconds).expect("fits")
}

#[test]
fn le_timestamp_com_e_sem_centesimos() {
    let p = parse("[00:04.04] primeira\n[01:10] segunda\n[02:03.500] terceira");
    assert_eq!(p.lines.len(), 3);
    assert_eq!(p.lines[0].at_ms, 4_040);
    assert_eq!(p.lines[1].at_ms, 70_000);
    assert_eq!(p.lines[2].at_ms, 123_500);
}

#[test]
fn varios_timestamps_na_mesma_linha_viram_varias_ocorrencias() {
    let p = parse("[00:12.00][01:30.00]refrão");
    assert_eq!(p.lines.len(), 2, "o refrão toca duas vezes");
    assert_eq!(p.lines[0].at_ms, 12_000);
    assert_eq!(p.lines[1].at_ms, 90_000);
    assert_eq!(p.lines[0].text, "refrão");
    assert_eq!(p.lines[1].text, "refrão");
}

#[test]
fn linha_vazia_com_timestamp_e_preservada() {
    // É ela que limpa a tela no instrumental.
    let p = parse("[00:10.00]cantando\n[00:20.00]\n[00:40.00]voltou");
    assert_eq!(p.lines.len(), 3);
    assert_eq!(p.lines[1].at_ms, 20_000);
    assert_eq!(p.lines[1].text, "");
}

#[test]
fn offset_adianta_a_letra() {
    let p = parse("[offset:+500]\n[00:10.00]linha");
    assert_eq!(p.offset_ms, 500);
    assert_eq!(p.lines[0].at_ms, 9_500);

    let p = parse("[offset:-250]\n[00:10.00]linha");
    assert_eq!(p.lines[0].at_ms, 10_250);
}

#[test]
fn tags_de_metadado_nao_viram_linha() {
    let p = parse("[ar:Marisa Monte]\n[ti:Infinito Particular]\n[00:04.04]eis o melhor");
    assert_eq!(p.lines.len(), 1);
    assert_eq!(p.lines[0].text, "eis o melhor");
}

#[test]
fn ordena_e_remove_duplicata_exata() {
    let p = parse("[00:30.00]b\n[00:10.00]a\n[00:30.00]b");
    assert_eq!(p.lines.len(), 2);
    assert_eq!(p.lines[0].text, "a");
    assert_eq!(p.lines[1].text, "b");
}

#[test]
fn lixo_sem_timestamp_e_ignorado() {
    let p = parse("isso não é LRC\n\n[00:10.00]isso é");
    assert_eq!(p.lines.len(), 1);
}

#[test]
fn as_linhas_de_conteudo_pulam_vazias_e_tags() {
    let (linhas, offset) =
        content_lines("[ar:X]\n  [00:01.00] a \r\n\n[offset:+20]\nlixo\n[offset:x]\n");
    assert_eq!(linhas, vec!["[00:01.00] a".to_owned(), "lixo".to_owned()]);
    assert_eq!(offset, 20);
    assert_eq!(content_lines(""), (Vec::new(), 0));
}

#[test]
fn um_timestamp_vira_minutos_segundos_e_posicao() {
    assert_eq!(
        timestamp_parts("[01:02,5]x", 0),
        Some((1, "02.5".to_owned(), 9))
    );
    assert_eq!(timestamp_parts("[01:02,5]x", 9), None);
    assert_eq!(
        timestamp_parts("a[ 3 : 04 ][05:06]", 1),
        Some((3, "04".to_owned(), 11))
    );
    assert_eq!(timestamp_parts("[sem dois pontos]", 0), None);
    assert_eq!(timestamp_parts("[xx:04]", 0), None);
    assert_eq!(timestamp_parts("[00:04", 0), None);
    assert_eq!(timestamp_parts("[00:04]", 30), None);
}

#[test]
fn cada_tempo_vira_uma_ocorrencia_com_o_mesmo_texto() {
    let linha = "[00:01][00:02]  refrão ";
    let r = entries_of_line(&[1_000, 2_000], linha, 14);
    assert_eq!(
        r,
        vec![
            LyricLine { at_ms: 1_000, text: "refrão".to_owned() },
            LyricLine { at_ms: 2_000, text: "refrão".to_owned() },
        ]
    );
    assert_eq!(entries_of_line(&[5], "[00:00]", 7)[0].text, "");
}

#[test]
fn o_instante_soma_minutos_e_segundos() {
    assert_eq!(instante(2, 3_500), Some(123_500));
    assert_eq!(instante(i64::MAX / 60_000 + 1, 0), None);
    assert_eq!(instante(i64::MAX / 60_000, i64::MAX), None);
}

#[test]
fn toda_duplicata_exata_sai_mesmo_sem_ser_vizinha() {
    let p = parse("[00:30.00]b\n[00:30.00]c\n[00:30.00]b");
    assert_eq!(p.lines.len(), 2);
    assert_eq!(p.lines[0].text, "b");
    assert_eq!(p.lines[1].text, "c");
    assert!(p.lines.iter().all(|l| l.at_ms == 30_000));
}

#[test]
fn os_segundos_a_ler_seguem_as_linhas() {
    let s = segundos_do_arquivo("[ar:X]\n[00:01,5][00:02]a\n\nlixo\n[00:03]");
    assert_eq!(s, vec![vec!["01.5".to_string(), "02".to_string()], vec![], vec!["03".to_string()]]);
}

#[test]
fn segundos_ilegiveis_param_os_timestamps() {
    let cs = carimbos("[00:01][00:xx][00:03]texto");
    assert_eq!(cs.len(), 3);
    let v = linha_lida("[00:01][00:xx][00:03]texto", &cs, &[Some(1000), None, Some(3000)]).unwrap();
    assert_eq!(v.len(), 1);
    assert_eq!(v[0].at_ms, 1000);
    assert_eq!(v[0].text, "[00:xx][00:03]texto");
    let nada = linha_lida("[00:01]texto", &carimbos("[00:01]texto"), &[None]).unwrap();
    assert!(nada.is_empty());
}

#[test]
fn um_tempo_que_nao_cabe_em_64_bits_nao_e_lido() {
    let lrc = "[153722867280912930:00]x";
    let secs = vec![vec![Some(0)]];
    assert!(parse_lido(lrc, &secs).is_none());
    let com_offset = "[offset:-9223372036854775807]\n[00:01]x";
    assert!(parse_lido(com_offset, &vec![vec![Some(1000)]]).is_none());
}
