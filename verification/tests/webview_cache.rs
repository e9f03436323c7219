use lyricslens::webview::lyrics::{LyricLine, Lyrics};
use lyricslens::webview::media::Track;
use lyricslens::webview::store::cache::{Cache, CacheStats, MISS_TTL_SECS};

fn faixa() -> Track {
    Track {
        title: "Infinito Particular".into(),
        artist: "Marisa Monte".into(),
        album: "Infinito Particular".into(),
        duration_ms: Some(251_000),
        source: "firefox".into(),
        ..Default::default()
    }
}

fn letra() -> Lyrics {
    Lyrics {
        lines: vec![LyricLine {
            at_ms: 4_040,
            text: "eis o melhor e o pior de mim".into(),
        }],
        plain: None,
        instrumental: false,
        source: "lrclib".into(),
        provider_id: Some("707294".into()),
        translation: None,
    }
}

#[test]
fn guarda_e_devolve() {
    let mut c = Cache::in_memory();
    let t = faixa();
    c.put(&t, &letra());

    let lida = c.get(&t.key()).expect("devia estar no cache");
    assert_eq!(lida.lines.len(), 1);
    assert_eq!(lida.lines[0].at_ms, 4_040);
    assert_eq!(lida.provider_id.as_deref(), Some("707294"));
}

#[test]
fn faixa_desconhecida_devolve_nada() {
    let c = Cache::in_memory();
    assert!(c.get("nao|existe|").is_none());
}

#[test]
fn regravar_nao_apaga_traducao_ja_baixada() {
    let mut c = Cache::in_memory();
    let t = faixa();

    let mut com_traducao = letra();
    com_traducao.translation = Some(vec![LyricLine {
        at_ms: 4_040,
        text: "here's the best and worst of me".into(),
    }]);
    c.put(&t, &com_traducao);

    // Rebusca da letra original, sem tradução no payload.
    c.put(&t, &letra());

    let lida = c.get(&t.key()).unwrap();
    assert!(lida.translation.is_some(), "a tradução foi perdida");
}

#[test]
fn fixar_e_desafixar_uma_faixa_guardada() {
    let mut c = Cache::in_memory();
    let t = faixa();
    c.put(&t, &letra());

    assert!(!c.is_pinned(&t.key()), "não nasce fixada");
    assert!(c.set_pinned(&t.key(), true), "fixou");
    assert!(c.is_pinned(&t.key()));

    assert!(c.set_pinned(&t.key(), false), "achou a faixa");
    assert!(!c.is_pinned(&t.key()));
}

#[test]
fn fixar_faixa_sem_letra_guardada_nao_aplica() {
    let mut c = Cache::in_memory();
    assert!(!c.set_pinned("nem|existe|isso", true));
    assert!(!c.is_pinned("nem|existe|isso"));
}

#[test]
fn a_lista_de_fixadas_traz_metadados_e_ignora_o_resto() {
    let mut c = Cache::in_memory();

    let fixada = faixa();
    c.put(&fixada, &letra());
    c.set_pinned(&fixada.key(), true);

    let solta = Track {
        title: "Outra".into(),
        artist: "Alguém".into(),
        ..Default::default()
    };
    c.put(&solta, &letra());

    let lista = c.pinned();
    assert_eq!(lista.len(), 1, "só a fixada entra na lista");
    assert_eq!(lista[0].artist, "Marisa Monte");
    assert_eq!(lista[0].title, "Infinito Particular");
    assert!(lista[0].synced, "esta tem letra sincronizada");
    assert_eq!(lista[0].track_key, fixada.key());
}

#[test]
fn a_lista_distingue_letra_sincronizada_de_texto_puro() {
    let mut c = Cache::in_memory();
    let t = faixa();

    let mut so_texto = letra();
    so_texto.lines = Vec::new();
    so_texto.plain = Some("uma letra sem marcação de tempo".into());
    c.put(&t, &so_texto);
    c.set_pinned(&t.key(), true);

    let lista = c.pinned();
    assert_eq!(lista.len(), 1);
    assert!(!lista[0].synced);
}

#[test]
fn fracasso_e_lembrado_e_some_quando_acha() {
    let mut c = Cache::in_memory();
    let t = faixa();

    assert!(c.should_retry(&t.key()), "sem registro, tenta");

    c.mark_miss(&t.key());
    assert!(!c.should_retry(&t.key()), "recém-falhou, não insiste");

    c.put(&t, &letra());
    assert!(c.should_retry(&t.key()), "achou: o fracasso caducou");
}

#[test]
fn estatisticas_contam_o_que_importa() {
    let mut c = Cache::in_memory();
    assert_eq!(c.stats(), CacheStats::default());

    let t = faixa();
    c.put(&t, &letra());
    c.mark_miss("outra|faixa|sem letra");

    let s = c.stats();
    assert_eq!(s.tracks, 1);
    assert_eq!(s.synced, 1, "esta tem linhas sincronizadas");
    assert_eq!(s.pinned, 0);
    assert_eq!(s.misses, 1);

    c.set_pinned(&t.key(), true);
    assert_eq!(c.stats().pinned, 1);
}

#[test]
fn instrumental_e_resposta_valida_no_cache() {
    let mut c = Cache::in_memory();
    let t = faixa();
    let mut l = letra();
    l.lines.clear();
    l.instrumental = true;
    c.put(&t, &l);

    let lida = c.get(&t.key()).unwrap();
    assert!(lida.instrumental);
    assert!(!lida.is_empty());
}

#[test]
fn a_falha_caduca_depois_do_prazo() {
    let mut c = Cache::in_memory();
    c.mark_miss_at("a|b|c", 1_000);
    assert!(!c.should_retry_at("a|b|c", 1_000 + MISS_TTL_SECS));
    assert!(c.should_retry_at("a|b|c", 1_001 + MISS_TTL_SECS));
    c.mark_miss_at("a|b|c", 5_000);
    assert!(!c.should_retry_at("a|b|c", 1_001 + MISS_TTL_SECS));
    assert_eq!(c.stats().misses, 1);
}

#[test]
fn regravar_troca_a_letra_e_guarda_o_instante() {
    let mut c = Cache::in_memory();
    let t = faixa();
    c.put_at(&t, &letra(), 10);
    let mut outra = letra();
    outra.lines = vec![LyricLine { at_ms: 1, text: "nova".into() }];
    outra.provider_id = None;
    // A mesma faixa, escrita com outra caixa: a mesma chave.
    let mut t2 = faixa();
    t2.artist = "  MARISA MONTE ".into();
    c.put_at(&t2, &outra, 20);
    assert_eq!(c.stats().tracks, 1);
    let lida = c.get(&t.key()).unwrap();
    assert_eq!(lida.lines[0].text, "nova");
    assert_eq!(lida.provider_id, None);
    let lista = {
        c.set_pinned(&t.key(), true);
        c.pinned()
    };
    assert_eq!(lista[0].artist, "Marisa Monte");
}

#[test]
fn a_lista_de_fixadas_sai_por_artista_e_titulo_sem_caixa() {
    let mut c = Cache::in_memory();
    let faixas = [("beta", "Z"), ("Alfa", "b"), ("alfa", "A"), ("Gama", "x")];
    for (artist, title) in faixas {
        let t = Track { artist: artist.into(), title: title.into(), ..Default::default() };
        c.put_at(&t, &letra(), 0);
        if artist != "Gama" {
            c.set_pinned(&t.key(), true);
        }
    }
    let lista = c.pinned();
    let nomes: Vec<(String, String)> = lista.into_iter().map(|p| (p.artist, p.title)).collect();
    assert_eq!(
        nomes,
        vec![
            ("alfa".to_string(), "A".to_string()),
            ("Alfa".to_string(), "b".to_string()),
            ("beta".to_string(), "Z".to_string()),
        ]
    );
}
