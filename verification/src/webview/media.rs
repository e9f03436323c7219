//! Detecção do que está tocando no sistema.
//!
//! O resto do app nunca fala com D-Bus, WinRT ou qualquer API de plataforma:
//! fala com [`MediaEvent`]. Trocar de plataforma é escrever um novo provider,
//! não mexer no app.

pub mod mpris;
pub mod player_falso;

use vstd::prelude::*;

use crate::text::{chars_of, extend, lowercase, string_of, trim, trimmed, unicode_lowercase};

verus! {

/// A faixa tocando agora, já normalizada — sem tipos de plataforma vazando.
#[derive(Clone, Debug, Default, PartialEq, Eq)]
pub struct Track {
    pub title: String,
    pub artist: String,
    pub album: String,
    pub duration_ms: Option<u64>,
    pub art_url: Option<String>,
    /// URL da mídia, quando existe. É o que dá para distinguir um vídeo de
    /// YouTube (título caótico) de uma faixa de streaming (título limpo).
    pub url: Option<String>,
    /// Quem está tocando: `firefox`, `spotify`, `vlc`…
    pub source: String,
}

/// Um campo da chave: sem caixa e sem espaço nas pontas.
pub open spec fn key_part(s: Seq<char>) -> Seq<char> {
    trim(unicode_lowercase(s))
}

/// `artista|título|álbum`, cada parte sem caixa e sem espaço nas pontas.
pub open spec fn track_key(artist: Seq<char>, title: Seq<char>, album: Seq<char>) -> Seq<char> {
    key_part(artist) + seq!['|'] + key_part(title) + seq!['|'] + key_part(album)
}

fn key_part_of(s: &str) -> (r: Vec<char>)
    ensures
        r@ == key_part(s@),
{
    let lower = lowercase(chars_of(s).as_slice());
    trimmed(lower.as_slice())
}

impl Track {
    /// Chave estável da faixa, para cache e mapeamentos salvos pelo usuário.
    pub fn key(&self) -> (k: String)
        ensures
            k@ == track_key(self.artist@, self.title@, self.album@),
    {
        let mut out = key_part_of(self.artist.as_str());
        out.push('|');
        extend(&mut out, key_part_of(self.title.as_str()).as_slice());
        out.push('|');
        extend(&mut out, key_part_of(self.album.as_str()).as_slice());
        string_of(out.as_slice())
    }

    pub fn is_empty(&self) -> (r: bool)
        ensures
            r == (self.title@.len() == 0 && self.artist@.len() == 0),
    {
        self.title.unicode_len() == 0 && self.artist.unicode_len() == 0
    }
}

#[derive(Clone, Copy, Debug, Default, PartialEq, Eq, Structural)]
pub enum PlaybackState {
    Playing,
    Paused,
    #[default]
    Stopped,
}

impl PlaybackState {
    pub fn is_playing(self) -> (r: bool)
        ensures
            r == (self == PlaybackState::Playing),
    {
        matches!(self, Self::Playing)
    }
}

/// Quanta confiança a âncora de posição merece.
///
/// Fontes que quantizam a posição em 1s (Firefox) só dão precisão real no
/// instante em que o valor *muda*.
#[derive(Clone, Copy, Debug, PartialEq, Eq, Structural)]
pub enum AnchorConfidence {
    /// A posição mudou neste instante — erro limitado ao intervalo de poll.
    Edge,
    /// Leitura avulsa. Pode carregar todo o erro de quantização da fonte.
    Sample,
}

#[derive(Clone, Debug)]
pub enum MediaEvent {
    TrackChanged { track: Track },
    PlaybackChanged { state: PlaybackState },
    /// A posição real da faixa em um instante conhecido.
    PositionAnchored { position_ms: u64, confidence: AnchorConfidence },
    /// O usuário pulou na faixa — a estimativa anterior foi invalidada.
    Seeked { position_ms: u64 },
    /// Não há mais nenhum player no sistema.
    Gone,
}

#[derive(Debug)]
pub enum MediaError {
    Bus(String),
}

impl MediaError {
    /// A frase que o erro mostra: `falha no barramento: …`.
    pub fn message(&self) -> (r: String)
        ensures
            match self {
                MediaError::Bus(m) => r@ == "falha no barramento: "@ + m@,
            },
    {
        match self {
            MediaError::Bus(m) => {
                let mut out = chars_of("falha no barramento: ");
                extend(&mut out, chars_of(m.as_str()).as_slice());
                string_of(out.as_slice())
            },
        }
    }
}

} // verus!
