use lyricslens::screen::Update;
use lyricslens::sync::Playback;
use lyricslens::worker::{Follower, Playing};

fn track(title: &str, artist: &str, micros: i64) -> Playing {
    Playing::from_fields(Some(title.to_owned()), vec![artist.to_owned()], Some(micros))
}

#[test]
fn um_titulo_em_branco_nao_e_titulo() {
    let p = Playing::from_fields(Some("   ".to_owned()), vec![], None);
    assert_eq!(p.title, None);
    assert!(p.is_empty());
    assert_eq!(p.length_ms, None);
}

#[test]
fn a_duracao_chega_em_microssegundos() {
    let p = track("Song", "Band", 215_500_000);
    assert_eq!(p.length_ms, Some(215_500));
    assert_eq!(p.title.as_deref(), Some("Song"));
    assert!(!p.is_empty());
    let q = Playing::from_fields(None, vec![], Some(-5));
    assert_eq!(q.length_ms, Some(0));
}

#[test]
fn a_mesma_faixa_compara_titulo_artistas_e_duracao() {
    let a = track("Song", "Band", 1_000_000);
    assert!(a.same_as(&track("Song", "Band", 1_000_000)));
    assert!(!a.same_as(&track("Song", "Other", 1_000_000)));
    assert!(!a.same_as(&track("Other", "Band", 1_000_000)));
    assert!(!a.same_as(&track("Song", "Band", 2_000_000)));
    let two = Playing::from_fields(Some("Song".to_owned()), vec!["Band".to_owned(), "Guest".to_owned()], Some(1_000_000));
    assert!(!a.same_as(&two));
}

#[test]
fn a_primeira_leitura_anuncia_faixa_estado_e_posicao() {
    let mut f = Follower::new();
    let r = f.read(track("Song", "Band", 1_000_000), "Playing", Some(42_999), 7);
    assert!(r.new_track);
    assert_eq!(r.updates.len(), 4);
    assert!(matches!(r.updates[0], Update::Lyrics(None)));
    assert!(matches!(&r.updates[1], Update::TrackChanged { title: Some(t), empty: false } if t == "Song"));
    assert!(matches!(r.updates[2], Update::Playback(Playback::Playing)));
    assert!(matches!(r.updates[3], Update::Position { reading_ms: 42, at_ms: 7 }));
}

#[test]
fn a_mesma_faixa_e_estado_so_passam_a_posicao() {
    let mut f = Follower::new();
    f.read(track("Song", "Band", 1_000_000), "Playing", Some(0), 0);
    let r = f.read(track("Song", "Band", 1_000_000), "Playing", Some(1_500_000), 100);
    assert!(!r.new_track);
    assert_eq!(r.updates.len(), 1);
    assert!(matches!(r.updates[0], Update::Position { reading_ms: 1500, at_ms: 100 }));
}

#[test]
fn uma_pausa_e_anunciada() {
    let mut f = Follower::new();
    f.read(track("Song", "Band", 1_000_000), "Playing", Some(0), 0);
    let r = f.read(track("Song", "Band", 1_000_000), "Paused", Some(0), 100);
    assert!(!r.new_track);
    assert_eq!(r.updates.len(), 2);
    assert!(matches!(r.updates[0], Update::Playback(Playback::Paused)));
    assert!(matches!(r.updates[1], Update::Position { .. }));
}

#[test]
fn posicao_ilegivel_e_anunciada_uma_vez_por_faixa() {
    let mut f = Follower::new();
    let r = f.read(track("Song", "Band", 1_000_000), "Playing", None, 0);
    assert_eq!(r.updates.len(), 4);
    assert!(matches!(r.updates[3], Update::PositionStalled));
    assert!(f.stalled);
    let r = f.read(track("Song", "Band", 1_000_000), "Playing", None, 100);
    assert!(r.updates.is_empty());
    let r = f.read(track("Next", "Band", 1_000_000), "Playing", None, 200);
    assert!(r.new_track);
    assert_eq!(r.updates.len(), 3);
    assert!(matches!(r.updates[2], Update::PositionStalled));
}

#[test]
fn nada_tocando_e_faixa_vazia() {
    let mut f = Follower::new();
    let r = f.read(Playing::from_fields(None, vec![], None), "Stopped", None, 0);
    assert!(r.new_track);
    assert!(matches!(r.updates[1], Update::TrackChanged { title: None, empty: true }));
    assert!(matches!(r.updates[2], Update::Playback(Playback::Stopped)));
}
