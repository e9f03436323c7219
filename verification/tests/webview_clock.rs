use lyricslens::webview::sync::clock::Clock;

// The webview clock reads the time through `Instant`; each test below asks
// the same questions through the `*_after` methods, which take the time
// elapsed since the anchor as an argument.

#[test]
fn parado_nao_avanca() {
    let mut c = Clock::new();
    c.anchor(10_000);
    assert_eq!(c.position_after(5_000), 10_000);
}

#[test]
fn tocando_avanca_com_o_tempo() {
    let mut c = Clock::new();
    c.set_playing(true);
    c.anchor(10_000);
    let p = c.position_after(3_000);
    assert!((12_900..=13_100).contains(&p), "posição inesperada: {p}");
}

#[test]
fn pausar_congela_a_posicao_corrida() {
    let mut c = Clock::new();
    c.set_playing(true);
    c.anchor(10_000);
    let corrido = c.raw_position_after(2_000);

    // Pausar re-ancora na posição corrida: é o que `set_playing(false)` faz
    // com o relógio de verdade.
    c.set_playing(false);
    c.anchor(corrido);
    let ao_pausar = c.position_after(0);

    assert_eq!(c.position_after(30_000), ao_pausar, "avançou enquanto pausado");
    assert!((11_900..=12_100).contains(&ao_pausar));
}

#[test]
fn offset_desloca_a_posicao() {
    let mut c = Clock::new();
    c.anchor(10_000);
    c.set_offset_ms(-250);
    assert_eq!(c.position_ms(), 9_750);

    // Offset negativo maior que a posição não pode virar tempo negativo.
    c.anchor(100);
    c.set_offset_ms(-5_000);
    assert_eq!(c.position_ms(), 0);
}

#[test]
fn salto_so_conta_depois_da_primeira_ancora() {
    let mut c = Clock::new();
    assert!(!c.looks_like_seek(90_000), "sem âncora não existe salto");

    c.set_playing(true);
    c.anchor(10_000);
    assert!(!c.looks_like_seek_after(0, 10_100), "100ms é imprecisão, não salto");
    assert!(c.looks_like_seek_after(0, 90_000), "80s de diferença é salto");
}

#[test]
fn drift_tem_sinal_util() {
    let mut c = Clock::new();
    c.set_playing(true);
    c.anchor(10_000);
    // Fonte reporta menos do que estimamos: o relógio está adiantado.
    assert!(c.drift_after(0, 9_000) > 0);
    assert!(c.drift_after(0, 11_000) < 0);
}

#[test]
fn pausar_de_verdade_congela_o_relogio() {
    let mut c = Clock::new();
    c.set_playing(true);
    c.anchor(10_000);
    c.set_playing(false);
    let p = c.position_ms();
    assert!((10_000..=10_100).contains(&p));
    assert_eq!(c.position_after(30_000), c.position_after(0));
}

#[test]
fn ancora_marca_o_relogio_como_ancorado() {
    let mut c = Clock::new();
    assert!(!c.is_anchored());
    c.anchor(0);
    assert!(c.is_anchored());
}

#[test]
fn drift_exato_em_valores_conhecidos() {
    let mut c = Clock::new();
    c.set_playing(true);
    c.anchor(10_000);
    assert_eq!(c.drift_after(1_000, 10_500), 500);
    assert_eq!(c.drift_after(1_000, 11_600), -600);
    // Exatamente no limiar ainda não é salto; um milissegundo além, é.
    assert!(!c.looks_like_seek_after(1_000, 11_500));
    assert!(c.looks_like_seek_after(1_000, 11_501));
}

#[test]
fn retomar_com_ajuste_aplica_o_ajuste_uma_vez_so() {
    let mut c = Clock::new();
    c.anchor(10_000);
    c.set_offset_ms(-250);
    assert_eq!(c.raw_position_after(0), 10_000);
    let antes = c.position_after(0);
    c.set_playing(true);
    // A âncora continua sendo a posição sem ajuste.
    assert_eq!(c.raw_position_after(0), 10_000);
    assert_eq!(c.position_after(0), antes);
    c.set_playing(false);
    let pausado = c.raw_position_after(0);
    assert!((10_000..=10_100).contains(&pausado), "âncora inesperada: {pausado}");
}
