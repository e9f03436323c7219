//! As preferências e o cache de letras.
//!
//! Ler e gravar o JSON das preferências é de fora da biblioteca; aqui ficam
//! os tipos e as regras, e em `cache` as tabelas do cache de letras, na
//! memória, com as regras de cada operação.

pub mod cache;

use vstd::prelude::*;

use crate::text::{chars_of, join_path, path_join, string_of};

verus! {

// ---------------------------------------------------------------------------
// Preferências
// ---------------------------------------------------------------------------

#[derive(Clone, Copy, Debug, PartialEq, Eq, Structural)]
pub enum TextAlign {
    Left,
    Center,
}

/// Onde as preferências ficam: `settings.json` no diretório de dados.
#[derive(Debug, Clone)]
pub struct SettingsStore {
    path: String,
}

impl SettingsStore {
    pub closed spec fn path_view(&self) -> Seq<char> {
        self.path@
    }

    pub fn new(dir: &str) -> (r: Self)
        ensures
            r.path_view() == path_join(dir@, "settings.json"@),
    {
        SettingsStore { path: string_of(join_path(chars_of(dir).as_slice(), "settings.json").as_slice()) }
    }

    pub fn path(&self) -> (r: &str)
        ensures
            r@ == self.path_view(),
    {
        self.path.as_str()
    }
}

/// As medidas inteiras das preferências, que um arquivo editado na mão pode
/// trazer absurdas.
#[derive(Clone, Copy, Debug, PartialEq, Eq, Structural)]
pub struct Medidas {
    pub font_size: u32,
    pub font_weight: u32,
    pub corner_radius: u32,
    pub width: u32,
    pub height: u32,
    pub margin_bottom: u32,
    pub sync_offset_ms: i64,
}

pub open spec fn clamp(v: int, lo: int, hi: int) -> int {
    if v < lo {
        lo
    } else if v > hi {
        hi
    } else {
        v
    }
}

/// Cada medida presa ao que deixa o overlay usável — nem invisível, nem
/// gigante, nem fora da tela.
pub open spec fn contidas(m: Medidas) -> Medidas {
    Medidas {
        font_size: clamp(m.font_size as int, 10, 96) as u32,
        font_weight: clamp(m.font_weight as int, 100, 900) as u32,
        corner_radius: if m.corner_radius > 64 { 64 } else { m.corner_radius },
        width: clamp(m.width as int, 240, 3840) as u32,
        height: clamp(m.height as int, 80, 2160) as u32,
        margin_bottom: if m.margin_bottom > 2000 { 2000 } else { m.margin_bottom },
        sync_offset_ms: clamp(m.sync_offset_ms as int, -10_000, 10_000) as i64,
    }
}

fn prende_u32(v: u32, lo: u32, hi: u32) -> (r: u32)
    requires
        lo <= hi,
    ensures
        r == clamp(v as int, lo as int, hi as int),
{
    if v < lo {
        lo
    } else if v > hi {
        hi
    } else {
        v
    }
}

impl Medidas {
    /// Impede que um arquivo editado na mão deixe o overlay inutilizável.
    pub fn sanitize(&mut self)
        ensures
            *final(self) == contidas(*old(self)),
    {
        self.font_size = prende_u32(self.font_size, 10, 96);
        self.font_weight = prende_u32(self.font_weight, 100, 900);
        if self.corner_radius > 64 {
            self.corner_radius = 64;
        }
        self.width = prende_u32(self.width, 240, 3840);
        self.height = prende_u32(self.height, 80, 2160);
        if self.margin_bottom > 2000 {
            self.margin_bottom = 2000;
        }
        if self.sync_offset_ms < -10_000 {
            self.sync_offset_ms = -10_000;
        } else if self.sync_offset_ms > 10_000 {
            self.sync_offset_ms = 10_000;
        }
    }
}

/// Conter o que já está contido não muda nada.
pub proof fn law_sanitize_is_idempotent(m: Medidas)
    ensures
        contidas(contidas(m)) == contidas(m),
{
}

// ---------------------------------------------------------------------------
// Cache de letras
// ---------------------------------------------------------------------------

/// Quanto tempo uma busca fracassada continua valendo antes de tentar de
/// novo: três dias. Letra nova chega ao LRCLIB toda hora.
pub const MISS_TTL_SECS: i64 = 259200;

/// Uma letra que o usuário mandou manter offline.
#[derive(Debug, Clone, PartialEq, Eq)]
pub struct PinnedLyrics {
    pub track_key: String,
    pub artist: String,
    pub title: String,
    /// Sincronizada, ou só o texto.
    pub synced: bool,
}

#[derive(Debug, Default, Clone, Copy, PartialEq, Eq)]
pub struct CacheStats {
    /// Faixas com alguma letra guardada.
    pub tracks: i64,
    /// Destas, quantas têm letra sincronizada.
    pub synced: i64,
    /// Fixadas para uso offline.
    pub pinned: i64,
    /// Faixas conhecidas como sem letra — a busca nem é refeita.
    pub misses: i64,
}

/// Vale buscar de novo: nunca falhou, ou o fracasso já passou do prazo.
pub fn should_retry(tried_at: Option<i64>, agora: i64) -> (r: bool)
    ensures
        r == match tried_at {
            None => true,
            Some(t) => agora - t > MISS_TTL_SECS,
        },
{
    match tried_at {
        None => true,
        Some(t) => (agora as i128) - (t as i128) > (MISS_TTL_SECS as i128),
    }
}

} // verus!
