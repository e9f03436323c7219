use lyricslens::webview::overlay::compositor::hyprland::{
    checar, dialeto_da_sonda, flutuar, ler_cursorpos, mover, regras_de_desfoque, Dialeto,
};
use lyricslens::webview::overlay::compositor::sway::{
    atalho_do_hyprland, monitor_que_contem, no_overlay, troca,
};
use lyricslens::webview::overlay::compositor::{Compositor, Nenhum};
use lyricslens::webview::overlay::hotkey::{apply, bind, clear, desfecho, lua_escape, para_lua, unbind};
use lyricslens::webview::overlay::{fontes_da_saida, posicao_desejada, posicao_visivel, Geometry, VISIVEL_MINIMO};

/// Dois monitores 1920×1080 lado a lado, o da direita começando em x=1920.
const DOIS_MONITORES: &[(i32, i32, i32, i32)] = &[(0, 0, 1920, 1080), (1920, 0, 1920, 1080)];
const OVERLAY: (i32, i32) = (760, 260);

#[test]
fn posicao_dentro_do_monitor_principal_e_visivel() {
    assert!(posicao_visivel(DOIS_MONITORES, (500, 800), OVERLAY.0, OVERLAY.1));
}

#[test]
fn posicao_no_monitor_secundario_e_visivel() {
    assert!(posicao_visivel(DOIS_MONITORES, (2400, 500), OVERLAY.0, OVERLAY.1));
}

#[test]
fn posicao_no_monitor_desconectado_nao_e_visivel() {
    let so_o_principal = &[(0, 0, 1920, 1080)];
    assert!(!posicao_visivel(so_o_principal, (2400, 500), OVERLAY.0, OVERLAY.1));
}

#[test]
fn posicao_negativa_fora_de_qualquer_monitor_nao_e_visivel() {
    assert!(!posicao_visivel(DOIS_MONITORES, (-2000, -2000), OVERLAY.0, OVERLAY.1));
}

#[test]
fn sobra_de_margem_na_borda_ainda_conta_como_visivel() {
    let so_o_principal = &[(0, 0, 1920, 1080)];
    assert!(posicao_visivel(so_o_principal, (1920 - VISIVEL_MINIMO, 500), OVERLAY.0, OVERLAY.1));
    assert!(!posicao_visivel(
        so_o_principal,
        (1920 - VISIVEL_MINIMO + 1, 500),
        OVERLAY.0,
        OVERLAY.1
    ));
}

#[test]
fn sem_monitores_conhecidos_confia_no_que_esta_gravado() {
    assert!(posicao_visivel(&[], (99999, 99999), OVERLAY.0, OVERLAY.1));
}

#[test]
fn janela_menor_que_a_folga_minima_usa_o_proprio_tamanho() {
    let so_o_principal = &[(0, 0, 1920, 1080)];
    assert!(posicao_visivel(so_o_principal, (100, 100), 20, 10));
}

fn geo(position: Option<(i32, i32)>) -> Geometry {
    Geometry {
        width: 760,
        height: 260,
        margin_bottom: 40,
        position,
        blur: false,
        layer_shell: false,
    }
}

#[test]
fn posicao_guardada_visivel_e_obedecida_e_a_sumida_vira_rodape() {
    assert_eq!(posicao_desejada(DOIS_MONITORES, None, geo(Some((500, 800)))), Some((500, 800)));
    // Fora de tela: rodapé central do monitor do overlay.
    assert_eq!(
        posicao_desejada(DOIS_MONITORES, Some((1920, 0, 1920, 1080)), geo(Some((-5000, 0)))),
        Some((1920 + 580, 780))
    );
    // Sem saber do monitor do overlay: o primeiro conhecido.
    assert_eq!(posicao_desejada(DOIS_MONITORES, None, geo(None)), Some((580, 780)));
    assert_eq!(posicao_desejada(&[], None, geo(None)), None);
    // Janela mais larga que o monitor: a metade negativa corta em direção ao zero.
    let larga = Geometry { width: 1921, ..geo(None) };
    assert_eq!(posicao_desejada(&[(0, 0, 1920, 1080)], None, larga), Some((0, 780)));
}

#[test]
fn o_desconhecido_nao_promete_o_que_nao_cumpre() {
    let c = Nenhum;
    assert!(!c.sabe_posicionar());
    assert!(c.monitores().is_none());
    assert!(c.posicao_atual().is_none());
    assert!(c.registrar_atalho("", "SUPER, L").is_err());
}

#[test]
fn o_desconhecido_nao_erra_ao_ser_chamado() {
    let c = Nenhum;
    assert!(c.preparar(800, 200).is_ok());
    assert!(c.mover(0, 0).is_ok());
    assert_eq!(c.nome(), "desconhecido");
    assert!(!c.sabe_desfocar());
    assert!(c.definir_desfoque(true).is_err());
}

#[test]
fn le_a_posicao_do_cursor() {
    assert_eq!(ler_cursorpos("607, 881"), Some((607, 881)));
    assert_eq!(ler_cursorpos("0,0"), Some((0, 0)));
    assert_eq!(ler_cursorpos("2516, 661"), Some((2516, 661)));
}

#[test]
fn resposta_que_nao_e_coordenada_nao_vira_posicao() {
    assert_eq!(ler_cursorpos(""), None);
    assert_eq!(ler_cursorpos("error: unknown request"), None);
    assert_eq!(ler_cursorpos("607"), None);
    assert_eq!(ler_cursorpos("a, b"), None);
}

#[test]
fn a_sonda_separa_os_dialetos() {
    assert_eq!(dialeto_da_sonda("ok"), Dialeto::Legado);
    assert_eq!(dialeto_da_sonda("error: syntax"), Dialeto::Lua);
    assert_eq!(dialeto_da_sonda("use hl.dispatch instead"), Dialeto::Lua);
    assert_eq!(
        flutuar(Dialeto::Legado),
        vec!["dispatch", "setfloating", "title:^(LyricsLens Overlay)$"]
    );
    assert_eq!(
        flutuar(Dialeto::Lua),
        vec![
            "dispatch",
            "hl.dsp.window.float{ window = hl.get_window(\"title:^(LyricsLens Overlay)$\") }"
        ]
    );
    assert_eq!(
        mover(Dialeto::Legado, -10, 20),
        vec!["dispatch", "movewindowpixel", "exact -10 20,title:^(LyricsLens Overlay)$"]
    );
    assert_eq!(
        mover(Dialeto::Lua, 1, 2),
        vec![
            "dispatch",
            "hl.dsp.window.move{ x = 1, y = 2, window = hl.get_window(\"title:^(LyricsLens Overlay)$\") }"
        ]
    );
    assert!(checar(" OK\n"));
    assert!(!checar("error: no"));
    let (janela, camada) = regras_de_desfoque(true);
    assert!(janela.ends_with("no_blur = false })"));
    assert!(camada.ends_with("blur = true })"));
}

#[test]
fn traduz_modificadores_para_a_notacao_do_sway() {
    assert_eq!(atalho_do_hyprland("SUPER, L").as_deref(), Some("Mod4+l"));
    assert_eq!(atalho_do_hyprland("CTRL SHIFT, K").as_deref(), Some("Ctrl+Shift+k"));
    assert_eq!(atalho_do_hyprland("ALT, F1").as_deref(), Some("Mod1+F1"));
}

#[test]
fn letra_vira_minuscula_e_especial_mantem_o_nome() {
    assert_eq!(atalho_do_hyprland("SUPER, L").as_deref(), Some("Mod4+l"));
    assert_eq!(atalho_do_hyprland("SUPER, up").as_deref(), Some("Mod4+up"));
    assert_eq!(atalho_do_hyprland("SUPER, space").as_deref(), Some("Mod4+space"));
}

#[test]
fn atalho_sem_tecla_nao_vira_bind() {
    assert_eq!(atalho_do_hyprland("SUPER, "), None);
    assert_eq!(atalho_do_hyprland("sem virgula"), None);
    assert_eq!(atalho_do_hyprland(""), None);
}

#[test]
fn tecla_sozinha_ainda_produz_bind() {
    assert_eq!(atalho_do_hyprland(", F12").as_deref(), Some("F12"));
}

#[test]
fn troca_no_sway() {
    let t = troca("SUPER, L", "CTRL, K").expect("combinação completa");
    assert_eq!(t.desligar, vec!["Mod4+l".to_string()]);
    assert_eq!(t.ligar.as_deref(), Some("Ctrl+k"));
    let e = troca("", "SUPER, ").err().expect("sem tecla");
    assert_eq!(e.to_text(), "hotkey.refused (atalho=SUPER, , motivo=combinação incompleta)");
    assert!(troca("", "  ").unwrap().ligar.is_none());
    assert_eq!(no_overlay("sticky enable"), "[title=\"^LyricsLens Overlay$\"] sticky enable");
    assert_eq!(
        monitor_que_contem(DOIS_MONITORES, 2000, 10),
        Some((1920, 0, 1920, 1080))
    );
    assert_eq!(monitor_que_contem(DOIS_MONITORES, 5000, 10), None);
}

#[test]
fn traduz_a_notacao_do_conf_para_a_da_api_lua() {
    assert_eq!(para_lua("SUPER, L"), "SUPER + L");
    assert_eq!(para_lua("SUPER SHIFT, L"), "SUPER + SHIFT + L");
    assert_eq!(para_lua("SUPER CTRL ALT SHIFT, F12"), "SUPER + CTRL + ALT + SHIFT + F12");
}

#[test]
fn atalho_sem_modificador_nao_sobra_com_mais_na_ponta() {
    assert_eq!(para_lua(", L"), "L");
    assert_eq!(para_lua(",F12"), "F12");
}

#[test]
fn escapa_o_que_quebraria_a_string_lua() {
    assert_eq!(lua_escape(r#"/home/a"b/app"#), r#"/home/a\"b/app"#);
    assert_eq!(lua_escape(r"/home/a\b/app"), r"/home/a\\b/app");
}

#[test]
fn o_pedido_de_atalho_nos_dois_dialetos() {
    assert_eq!(
        bind(Dialeto::Legado, "SUPER, L", "/app toggle"),
        vec!["keyword", "bind", "SUPER, L,exec,/app toggle"]
    );
    assert_eq!(
        bind(Dialeto::Lua, "SUPER, L", "/a\"b toggle"),
        vec!["eval", "hl.bind(\"SUPER + L\", hl.dsp.exec_cmd(\"/a\\\"b toggle\"))"]
    );
    assert_eq!(unbind(Dialeto::Legado, "SUPER, L"), vec!["keyword", "unbind", "SUPER, L"]);
    assert_eq!(unbind(Dialeto::Lua, "SUPER, L"), vec!["eval", "hl.unbind(\"SUPER + L\")"]);
}

#[test]
fn a_troca_de_atalho_desliga_antes_de_ligar() {
    assert_eq!(apply("", "SUPER, L", false).err().unwrap().to_text(), "hotkey.onlyHyprland");
    let t = apply("SUPER, K", "SUPER, L", true).unwrap();
    assert_eq!(t.desligar, vec!["SUPER, K".to_string(), "SUPER, L".to_string()]);
    assert_eq!(t.ligar.as_deref(), Some("SUPER, L"));
    let t = apply(" ", "", true).unwrap();
    assert!(t.desligar.is_empty());
    assert!(t.ligar.is_none());
    assert!(desfecho("SUPER, L", Ok("ok".to_string())).is_ok());
    assert_eq!(
        desfecho("SUPER, L", Ok(" error: bad \n".to_string())).err().unwrap().to_text(),
        "hotkey.refused (atalho=SUPER, L, motivo=error: bad)"
    );
    assert_eq!(
        desfecho("SUPER, L", Err("hyprctl indisponível".to_string())).err().unwrap().to_text(),
        "hotkey.compositorFailed (motivo=hyprctl indisponível)"
    );
    assert_eq!(clear("SUPER, L", true).as_deref(), Some("SUPER, L"));
    assert_eq!(clear("SUPER, L", false), None);
    assert_eq!(clear("  ", true), None);
}

#[test]
fn as_fontes_saem_em_ordem_e_sem_repeticao() {
    let saida = "Noto Sans\n  DejaVu Serif \n\nNoto Sans\r\nCantarell\n";
    assert_eq!(
        fontes_da_saida(saida),
        vec!["Cantarell".to_owned(), "DejaVu Serif".to_owned(), "Noto Sans".to_owned()]
    );
    assert!(fontes_da_saida("").is_empty());
    assert!(fontes_da_saida("\n  \n").is_empty());
}
