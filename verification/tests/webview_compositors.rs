use lyricslens::webview::overlay::compositor::hyprland::{
    cliente_overlay, falta_preparar, monitor_da_camada, monitor_do_overlay,
    monitores_do_compositor, posicao_do_cliente, Camadas, Cliente, Monitor,
};
use lyricslens::webview::overlay::compositor::{retangulo_de, TITULO};
use lyricslens::webview::overlay::compositor::sway::{
    achar_no, monitores, posicao_na_arvore, retangulo, No, Saida,
};

fn no(name: &str, nodes: Option<Vec<No>>, floating: Option<Vec<No>>) -> No {
    No {
        name: Some(name.to_owned()),
        nodes,
        floating_nodes: floating,
        rect: Some((Some(10), Some(20), Some(300), Some(40))),
    }
}

#[test]
fn o_no_e_achado_pelo_nome_em_qualquer_profundidade() {
    let arvore = no(
        "root",
        Some(vec![no("HDMI-A-1", Some(vec![no("LyricsLens Overlay", Some(vec![]), None)]), Some(vec![]))]),
        Some(vec![]),
    );
    let achado = achar_no(&arvore, "LyricsLens Overlay").expect("achado");
    assert_eq!(achado.name.as_deref(), Some("LyricsLens Overlay"));
    assert_eq!(posicao_na_arvore(&arvore), Some((10, 20)));
}

#[test]
fn os_flutuantes_vem_depois_dos_nodes() {
    let arvore = no(
        "root",
        Some(vec![no("outra", Some(vec![]), Some(vec![]))]),
        Some(vec![no("LyricsLens Overlay", Some(vec![]), None)]),
    );
    assert!(achar_no(&arvore, "LyricsLens Overlay").is_some());
}

#[test]
fn sem_a_lista_de_nodes_a_busca_para_ali() {
    let arvore = no("root", None, Some(vec![no("LyricsLens Overlay", Some(vec![]), None)]));
    assert!(achar_no(&arvore, "LyricsLens Overlay").is_none());
    assert_eq!(posicao_na_arvore(&arvore), None);
}

#[test]
fn retangulo_pede_os_quatro_numeros() {
    let mut n = no("x", None, None);
    assert_eq!(retangulo(&n), Some((10, 20, 300, 40)));
    n.rect = Some((Some(1), None, Some(3), Some(4)));
    assert_eq!(retangulo(&n), None);
    assert_eq!(retangulo_de((Some(4_294_967_297), Some(-1), Some(0), Some(2))), Some((1, -1, 0, 2)));
}

#[test]
fn saidas_inativas_nao_sao_monitores() {
    let saidas = vec![
        Saida { active: Some(true), rect: Some((Some(0), Some(0), Some(1920), Some(1080))) },
        Saida { active: Some(false), rect: Some((Some(1920), Some(0), Some(1920), Some(1080))) },
        Saida { active: None, rect: Some((Some(3840), Some(0), Some(1280), Some(1024))) },
        Saida { active: Some(true), rect: None },
    ];
    assert_eq!(monitores(&saidas), vec![(0, 0, 1920, 1080), (3840, 0, 1280, 1024)]);
}

fn cliente(titulo: &str, monitor: i64) -> Cliente {
    Cliente {
        title: Some(titulo.to_owned()),
        monitor: Some(monitor),
        floating: Some(true),
        pinned: Some(false),
        at: Some(vec![Some(5), Some(6)]),
    }
}

fn monitor(id: i64, nome: &str, x: i64) -> Monitor {
    Monitor {
        id: Some(id),
        name: Some(nome.to_owned()),
        x: Some(x),
        y: Some(0),
        width: Some(1920),
        height: Some(1080),
    }
}

#[test]
fn a_janela_do_overlay_e_a_do_titulo() {
    let clientes = vec![cliente("Configurações", 0), cliente("LyricsLens Overlay", 1)];
    assert_eq!(cliente_overlay(&clientes), Some(1));
    assert_eq!(cliente_overlay(&clientes[..1]), None);
    assert_eq!(posicao_do_cliente(&clientes[1]), Some((5, 6)));
    let mut sem_at = cliente("x", 0);
    sem_at.at = Some(vec![Some(5)]);
    assert_eq!(posicao_do_cliente(&sem_at), None);
}

#[test]
fn so_o_que_falta_e_alternado() {
    assert_eq!(falta_preparar(Some(&cliente("x", 0))), (false, true));
    assert_eq!(falta_preparar(None), (true, true));
}

#[test]
fn a_camada_diz_o_monitor() {
    let camadas = vec![
        Camadas { monitor: "DP-1".to_owned(), namespaces: Some(vec![Some("waybar".to_owned())]) },
        Camadas { monitor: "DP-2".to_owned(), namespaces: None },
        Camadas {
            monitor: "HDMI-A-1".to_owned(),
            namespaces: Some(vec![None, Some("lyricslens".to_owned())]),
        },
    ];
    assert_eq!(monitor_da_camada(&camadas), Some("HDMI-A-1".to_owned()));
    assert_eq!(monitor_da_camada(&camadas[..2]), None);
}

#[test]
fn o_monitor_do_overlay_vem_do_id_ou_do_nome() {
    let monitores = vec![monitor(0, "DP-1", 0), monitor(1, "HDMI-A-1", 1920)];
    assert_eq!(monitor_do_overlay(Some(1), None, &monitores), Some((1920, 0, 1920, 1080)));
    assert_eq!(monitor_do_overlay(None, Some("DP-1"), &monitores), Some((0, 0, 1920, 1080)));
    assert_eq!(monitor_do_overlay(None, None, &monitores), None);
    assert_eq!(monitor_do_overlay(Some(7), None, &monitores), None);
    assert_eq!(
        monitores_do_compositor(&monitores),
        vec![(0, 0, 1920, 1080), (1920, 0, 1920, 1080)]
    );
}

fn folha(nome: &str, rect: Option<(i64, i64, i64, i64)>) -> No {
    No {
        name: Some(nome.to_owned()),
        nodes: Some(vec![]),
        floating_nodes: Some(vec![]),
        rect: rect.map(|(x, y, w, h)| (Some(x), Some(y), Some(w), Some(h))),
    }
}

#[test]
fn acha_a_janela_no_meio_da_arvore() {
    let arvore = No {
        name: Some("root".to_owned()),
        nodes: Some(vec![No {
            name: Some("saida".to_owned()),
            nodes: Some(vec![]),
            floating_nodes: Some(vec![folha(TITULO, Some((100, 200, 780, 160)))]),
            rect: None,
        }]),
        floating_nodes: Some(vec![]),
        rect: None,
    };
    let no = achar_no(&arvore, TITULO).expect("devia achar");
    assert_eq!(retangulo(no), Some((100, 200, 780, 160)));
}

#[test]
fn arvore_sem_a_janela_nao_inventa() {
    let arvore = folha("root", None);
    assert!(achar_no(&arvore, TITULO).is_none());
}
