//! Busca e representação de letras.

pub mod lrc;
pub mod lrclib;
pub mod normalize;
pub mod servidor_falso;

use vstd::prelude::*;

use crate::text::{chars_of, extend, string_of};
use crate::webview::i18n::{as_map, UiError};

verus! {

#[derive(Clone, Debug, Default, PartialEq, Eq)]
pub struct LyricLine {
    pub at_ms: i64,
    pub text: String,
}

#[derive(Clone, Debug, Default, PartialEq, Eq)]
pub struct Lyrics {
    /// Vazio quando só existe letra sem sincronia.
    pub lines: Vec<LyricLine>,
    /// Letra corrida, quando não há versão sincronizada.
    pub plain: Option<String>,
    pub instrumental: bool,
    /// De onde veio: `lrclib`, `cache`…
    pub source: String,
    /// Id no provedor, para reencontrar a mesma letra depois.
    pub provider_id: Option<String>,
    /// Reservado para a tradução. Existir desde já evita migrar o cache depois.
    pub translation: Option<Vec<LyricLine>>,
}

impl Lyrics {
    /// Nada para mostrar: nem linhas, nem letra corrida, nem aviso de
    /// instrumental.
    pub fn is_empty(&self) -> (r: bool)
        ensures
            r == (self.lines@.len() == 0 && self.plain is None && !self.instrumental),
    {
        self.lines.len() == 0 && self.plain.is_none() && !self.instrumental
    }
}

/// Uma opção quando a busca exata falha e é o usuário quem decide. A
/// duração vem em milissegundos.
#[derive(Clone, Debug)]
pub struct Candidate {
    pub provider_id: String,
    pub title: String,
    pub artist: String,
    pub album: String,
    pub duration_ms: Option<u64>,
    pub has_synced: bool,
}

#[derive(Debug)]
pub enum LyricsError {
    NotFound,
    Network(String),
    Decode(String),
}

/// A frase de cada falha, para o log.
pub open spec fn lyrics_error_text(e: LyricsError) -> Seq<char> {
    match e {
        LyricsError::NotFound => "letra não encontrada"@,
        LyricsError::Network(m) => "falha de rede: "@ + m@,
        LyricsError::Decode(m) => "resposta inválida: "@ + m@,
    }
}

impl LyricsError {
    /// `letra não encontrada`, `falha de rede: …`, `resposta inválida: …`.
    pub fn message(&self) -> (r: String)
        ensures
            r@ == lyrics_error_text(*self),
    {
        match self {
            LyricsError::NotFound => string_of(chars_of("letra não encontrada").as_slice()),
            LyricsError::Network(m) => {
                let mut out = chars_of("falha de rede: ");
                extend(&mut out, chars_of(m.as_str()).as_slice());
                string_of(out.as_slice())
            },
            LyricsError::Decode(m) => {
                let mut out = chars_of("resposta inválida: ");
                extend(&mut out, chars_of(m.as_str()).as_slice());
                string_of(out.as_slice())
            },
        }
    }
}

/// O código com que cada falha de busca chega à tela.
///
/// O `Decode` vira um código próprio de propósito: "o LRCLIB respondeu algo
/// estranho" e "não consegui falar com o LRCLIB" mandam o usuário para lados
/// diferentes — um é problema do serviço, o outro pode ser a rede dele.
pub open spec fn lyrics_error_code(e: LyricsError) -> Seq<char> {
    match e {
        LyricsError::NotFound => "lyrics.notFound"@,
        LyricsError::Network(_) => "lyrics.network"@,
        LyricsError::Decode(_) => "lyrics.decode"@,
    }
}

/// Os parâmetros de cada falha: o motivo, quando há um.
pub open spec fn lyrics_error_args(e: LyricsError) -> Map<Seq<char>, Seq<char>> {
    match e {
        LyricsError::NotFound => Map::empty(),
        LyricsError::Network(m) => Map::empty().insert("motivo"@, m@),
        LyricsError::Decode(m) => Map::empty().insert("motivo"@, m@),
    }
}

/// Como cada falha de busca chega à tela.
pub fn ui_error_of(e: LyricsError) -> (r: UiError)
    ensures
        r.code_view() == lyrics_error_code(e),
        as_map(r.pairs()) == lyrics_error_args(e),
{
    match e {
        LyricsError::NotFound => {
            let r = UiError::new("lyrics.notFound");
            assert(as_map(r.pairs()) =~= Map::empty());
            r
        },
        LyricsError::Network(m) => {
            let r0 = UiError::new("lyrics.network");
            assert(as_map(r0.pairs()) =~= Map::empty());
            r0.arg("motivo", m.as_str())
        },
        LyricsError::Decode(m) => {
            let r0 = UiError::new("lyrics.decode");
            assert(as_map(r0.pairs()) =~= Map::empty());
            r0.arg("motivo", m.as_str())
        },
    }
}

} // verus!
