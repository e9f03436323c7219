//! O que o app sabe sobre o que está tocando agora, e como uma letra é
//! resolvida: cache primeiro, rede depois — e nunca duas vezes para a mesma
//! ausência.
//!
//! Os eventos chegam do detector e as respostas do cache e da rede chegam de
//! fora; aqui fica o que cada um muda e o que fazer em seguida.

use vstd::prelude::*;

use crate::webview::lyrics::{Lyrics, LyricsError};
use crate::webview::media::mpris::{same_track, copy_track};
use crate::webview::media::{MediaEvent, PlaybackState, Track};
use crate::webview::sync::clock::Clock;

verus! {

/// Tudo que o app sabe sobre o que está tocando agora.
pub struct NowPlaying {
    pub track: Option<Track>,
    pub state: PlaybackState,
    pub clock: Clock,
    /// Sobe a cada troca de faixa. Uma busca que volta atrasada compara a
    /// geração com a atual e se descarta em vez de escrever letra errada.
    pub generation: u64,
}

impl NowPlaying {
    pub fn new() -> (r: Self)
        ensures
            r.track is None,
            r.state == PlaybackState::Stopped,
            !r.clock.anchored(),
            !r.clock.playing(),
            r.clock.offset() == 0,
            r.generation == 0,
    {
        NowPlaying { track: None, state: PlaybackState::Stopped, clock: Clock::new(), generation: 0 }
    }

    /// Um evento do detector: o que muda, e a busca de letra a disparar,
    /// quando a faixa mudou (a faixa e a geração que a busca carrega).
    pub fn consume(&mut self, event: &MediaEvent) -> (r: Option<(Track, u64)>)
        ensures
            match *event {
                MediaEvent::TrackChanged { track } => {
                    &&& final(self).track matches Some(t) && same_track(t, track)
                    &&& final(self).state == old(self).state
                    &&& !final(self).clock.anchored()
                    &&& final(self).clock.offset() == 0
                    &&& final(self).clock.playing() == (old(self).state == PlaybackState::Playing)
                    &&& final(self).generation == vstd::wrapping::u64_specs::wrapping_add(old(self).generation, 1)
                    &&& r matches Some((t, g)) && same_track(t, track) && g == final(self).generation
                },
                MediaEvent::PlaybackChanged { state } => {
                    &&& final(self).track == old(self).track
                    &&& final(self).state == state
                    &&& final(self).clock.playing() == (state == PlaybackState::Playing)
                    &&& final(self).clock.anchored() == old(self).clock.anchored()
                    &&& final(self).clock.offset() == old(self).clock.offset()
                    &&& final(self).generation == old(self).generation
                    &&& r is None
                },
                MediaEvent::PositionAnchored { position_ms, .. } => {
                    &&& final(self).track == old(self).track
                    &&& final(self).state == old(self).state
                    &&& final(self).clock.anchor_position() == position_ms
                    &&& final(self).clock.anchored()
                    &&& final(self).clock.playing() == old(self).clock.playing()
                    &&& final(self).clock.offset() == old(self).clock.offset()
                    &&& final(self).generation == old(self).generation
                    &&& r is None
                },
                MediaEvent::Seeked { position_ms } => {
                    &&& final(self).track == old(self).track
                    &&& final(self).state == old(self).state
                    &&& final(self).clock.anchor_position() == position_ms
                    &&& final(self).clock.anchored()
                    &&& final(self).clock.playing() == old(self).clock.playing()
                    &&& final(self).clock.offset() == old(self).clock.offset()
                    &&& final(self).generation == old(self).generation
                    &&& r is None
                },
                MediaEvent::Gone => {
                    &&& final(self).track is None
                    &&& final(self).state == PlaybackState::Stopped
                    &&& !final(self).clock.anchored()
                    &&& !final(self).clock.playing()
                    &&& final(self).clock.offset() == 0
                    &&& final(self).generation == vstd::wrapping::u64_specs::wrapping_add(old(self).generation, 1)
                    &&& r is None
                },
            },
    {
        match event {
            MediaEvent::TrackChanged { track } => {
                let playing = self.state.is_playing();
                self.track = Some(copy_track(track));
                self.clock = Clock::new();
                self.clock.set_playing(playing);
                self.generation = self.generation.wrapping_add(1);
                Some((copy_track(track), self.generation))
            },
            MediaEvent::PlaybackChanged { state } => {
                self.state = *state;
                self.clock.set_playing(state.is_playing());
                None
            },
            MediaEvent::PositionAnchored { position_ms, .. } => {
                self.clock.anchor(*position_ms);
                None
            },
            MediaEvent::Seeked { position_ms } => {
                self.clock.anchor(*position_ms);
                None
            },
            MediaEvent::Gone => {
                let g = self.generation.wrapping_add(1);
                *self = NowPlaying::new();
                self.generation = g;
                None
            },
        }
    }
}

/// O que a tela ouve sobre a letra da faixa atual.
#[derive(Clone, Debug)]
pub enum LyricsEvent {
    Searching { track_key: String },
    Found { track_key: String, lyrics: Lyrics },
    NotFound { track_key: String },
}

/// O passo seguinte de uma resolução de letra.
#[derive(Debug)]
pub enum Passo {
    /// Avisar a tela, e parar.
    Avisar(LyricsEvent),
    /// Parar sem avisar: a música mudou enquanto isto rodava.
    Parar,
    /// Seguir para o próximo passo.
    Seguir,
}

/// O cache respondeu: letra guardada vai para a tela, se ainda é a faixa
/// atual; sem letra (ou cache ilegível), segue.
pub fn depois_do_cache(track_key: String, guardada: Option<Lyrics>, atual: bool) -> (r: Passo)
    ensures
        match guardada {
            Some(l) => if atual {
                r matches Passo::Avisar(LyricsEvent::Found { track_key: k, lyrics: m }) && k == track_key && m == l
            } else {
                r is Parar
            },
            None => r is Seguir,
        },
{
    match guardada {
        Some(lyrics) => if atual {
            Passo::Avisar(LyricsEvent::Found { track_key, lyrics })
        } else {
            Passo::Parar
        },
        None => Passo::Seguir,
    }
}

/// Uma ausência lembrada e ainda no prazo: nada de rede, avisa que não há
/// letra (se ainda é a faixa atual).
pub fn depois_da_ausencia(track_key: String, tentar: bool, atual: bool) -> (r: Passo)
    ensures
        tentar ==> r is Seguir,
        !tentar && atual ==> (r matches Passo::Avisar(LyricsEvent::NotFound { track_key: k }) && k == track_key),
        !tentar && !atual ==> r is Parar,
{
    if tentar {
        Passo::Seguir
    } else if atual {
        Passo::Avisar(LyricsEvent::NotFound { track_key })
    } else {
        Passo::Parar
    }
}

/// O que fazer com o cache depois da rede.
#[derive(Debug, Clone, Copy, PartialEq, Eq, Structural)]
pub enum Registro {
    /// Nada a guardar.
    Nenhum,
    /// Guardar a letra achada (a que vai no aviso).
    Guardar,
    /// Lembrar a ausência: só um "não existe" merece ser lembrado; falha de
    /// rede é temporária e não pode virar ausência permanente.
    LembrarAusencia,
}

/// A rede respondeu: se a música mudou enquanto isso, nada; senão, o que
/// guardar e o que avisar.
pub fn depois_da_rede(track_key: String, resultado: Result<Lyrics, LyricsError>, atual: bool) -> (r: (Registro, Option<LyricsEvent>))
    ensures
        !atual ==> r.0 == Registro::Nenhum && r.1 is None,
        atual ==> match resultado {
            Ok(l) => r.0 == Registro::Guardar && (r.1 matches Some(LyricsEvent::Found { track_key: k, lyrics: m })
                && k == track_key && m == l),
            Err(LyricsError::NotFound) => r.0 == Registro::LembrarAusencia && (r.1 matches Some(
                LyricsEvent::NotFound { track_key: k },
            ) && k == track_key),
            Err(_) => r.0 == Registro::Nenhum && (r.1 matches Some(LyricsEvent::NotFound { track_key: k })
                && k == track_key),
        },
{
    if !atual {
        return (Registro::Nenhum, None);
    }
    match resultado {
        Ok(lyrics) => (Registro::Guardar, Some(LyricsEvent::Found { track_key, lyrics })),
        Err(LyricsError::NotFound) => (Registro::LembrarAusencia, Some(LyricsEvent::NotFound { track_key })),
        Err(_) => (Registro::Nenhum, Some(LyricsEvent::NotFound { track_key })),
    }
}

} // verus!
