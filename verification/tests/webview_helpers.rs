use lyricslens::webview::lyrics::servidor_falso::{caminho_do_pedido, pediu, resposta_http, rota, Resposta};
use lyricslens::webview::media::player_falso::{alheios, Estado};
use lyricslens::webview::store::{should_retry, Medidas, SettingsStore, TextAlign, MISS_TTL_SECS};

#[test]
fn o_servidor_le_o_caminho_e_escolhe_a_rota_mais_longa() {
    assert_eq!(caminho_do_pedido("GET /api/get?x=1 HTTP/1.1\r\nHost: a\r\n\r\n"), "/api/get?x=1");
    assert_eq!(caminho_do_pedido(""), "/");
    assert_eq!(caminho_do_pedido("GET\r\n"), "/");
    let rotas = vec![
        ("/api/get".to_string(), Resposta::json("curta".to_string())),
        ("/api/get/".to_string(), Resposta::json("longa".to_string())),
    ];
    assert_eq!(rota(&rotas, "/api/get/496").corpo, "longa");
    assert_eq!(rota(&rotas, "/api/get?a=b").corpo, "curta");
    assert_eq!(rota(&rotas, "/api/search"), Resposta::status(404));
}

#[test]
fn a_resposta_conta_bytes_e_fecha_a_conexao() {
    let texto = resposta_http(&Resposta::json("é".to_string()));
    assert_eq!(
        texto,
        "HTTP/1.1 200 OK\r\nContent-Type: application/json\r\nContent-Length: 2\r\nConnection: close\r\n\r\né"
    );
    let pedidos = vec!["/api/get?a".to_string(), "/api/search?b".to_string()];
    assert!(pediu(&pedidos, "/api/search"));
    assert!(!pediu(&pedidos, "/api/get/"));
}

#[test]
fn o_player_falso_toca_creep_e_so_os_outros_contam() {
    let e = Estado::default();
    assert_eq!(e.titulo, "Creep");
    assert_eq!(e.duracao_us, 238_000_000);
    assert_eq!(e.status, "Playing");
    let nomes = vec![
        "org.freedesktop.DBus".to_string(),
        "org.mpris.MediaPlayer2.lyricslens_teste_1".to_string(),
        "org.mpris.MediaPlayer2.spotify".to_string(),
    ];
    assert_eq!(alheios(&nomes, "lyricslens_teste"), Some(vec!["org.mpris.MediaPlayer2.spotify".to_string()]));
    assert_eq!(alheios(&nomes[..2], "lyricslens_teste"), None);
}

#[test]
fn preferencias_absurdas_sao_contidas() {
    let mut m = Medidas {
        font_size: 5000,
        font_weight: 1,
        corner_radius: 999,
        width: 10,
        height: 99_999,
        margin_bottom: 50_000,
        sync_offset_ms: -99_999,
    };
    m.sanitize();
    assert_eq!(
        m,
        Medidas {
            font_size: 96,
            font_weight: 100,
            corner_radius: 64,
            width: 240,
            height: 2160,
            margin_bottom: 2000,
            sync_offset_ms: -10_000,
        }
    );
    assert_eq!(SettingsStore::new("/dados").path(), "/dados/settings.json");
    assert_ne!(TextAlign::Left, TextAlign::Center);
}

#[test]
fn fracasso_lembrado_so_vale_por_tres_dias() {
    assert!(should_retry(None, 0));
    assert!(!should_retry(Some(1_000), 1_000 + MISS_TTL_SECS));
    assert!(should_retry(Some(1_000), 1_000 + MISS_TTL_SECS + 1));
    assert!(!should_retry(Some(i64::MAX), i64::MIN));
}
