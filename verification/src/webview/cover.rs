//! Capa do álbum.
//!
//! A capa é do **álbum**, não da faixa: todas as músicas de um disco
//! compartilham a mesma, e é por isso que o cache é indexado por artista +
//! álbum. Um disco de doze faixas custa uma busca, não doze.

pub mod deezer;

use vstd::prelude::*;

use crate::text::{
    chars_of, eq_chars, extend, is_alphanumeric, is_whitespace, is_ws, lowercase, squeeze,
    squeezed, string_of, trim, trimmed, unicode_alphanumeric, unicode_lowercase,
};

verus! {

#[derive(Debug)]
pub enum CoverError {
    Network(String),
    Decode(String),
}

impl CoverError {
    /// `falha de rede: …`, `resposta inválida: …`.
    pub fn message(&self) -> (r: String)
        ensures
            r@ == match self {
                CoverError::Network(m) => "falha de rede: "@ + m@,
                CoverError::Decode(m) => "resposta inválida: "@ + m@,
            },
    {
        let (prefixo, m) = match self {
            CoverError::Network(m) => (chars_of("falha de rede: "), m),
            CoverError::Decode(m) => (chars_of("resposta inválida: "), m),
        };
        let mut out = prefixo;
        extend(&mut out, chars_of(m.as_str()).as_slice());
        string_of(out.as_slice())
    }
}

/// A capa encontrada e de onde veio.
#[derive(Clone, Debug, PartialEq, Eq)]
pub struct Cover {
    pub url: String,
    /// `player`, `deezer` — aparece no log e ajuda a explicar capa errada.
    pub source: String,
}

/// `artista|álbum`, cada um sem espaço nas pontas e em caixa baixa.
pub open spec fn album_key(artist: Seq<char>, album: Seq<char>) -> Seq<char> {
    unicode_lowercase(trim(artist)) + seq!['|'] + unicode_lowercase(trim(album))
}

/// Chave de cache: artista + álbum, normalizados. Caixa e espaço não
/// distinguem discos.
pub fn chave_do_album(artist: &str, album: &str) -> (r: String)
    ensures
        r@ == album_key(artist@, album@),
{
    let mut out = lowercase(trimmed(chars_of(artist).as_slice()).as_slice());
    out.push('|');
    extend(&mut out, lowercase(trimmed(chars_of(album).as_slice()).as_slice()).as_slice());
    string_of(out.as_slice())
}

/// Só letras, dígitos e espaço, das letras em caixa baixa.
pub open spec fn kept(s: Seq<char>) -> Seq<char>
    decreases s.len(),
{
    if s.len() == 0 {
        Seq::empty()
    } else {
        let k = kept(s.drop_last());
        if unicode_alphanumeric(s.last()) || is_ws(s.last()) {
            k.push(s.last())
        } else {
            k
        }
    }
}

/// O nome para comparar: caixa baixa, sem pontuação, espaços colapsados.
pub open spec fn loose_name(s: Seq<char>) -> Seq<char> {
    squeeze(kept(unicode_lowercase(s)))
}

fn limpar(s: &str) -> (r: Vec<char>)
    ensures
        r@ == loose_name(s@),
{
    let baixo = lowercase(chars_of(s).as_slice());
    let mut f: Vec<char> = Vec::new();
    let mut i: usize = 0;
    while i < baixo.len()
        invariant
            i <= baixo@.len(),
            f@ == kept(baixo@.take(i as int)),
        decreases baixo@.len() - i,
    {
        let c = baixo[i];
        proof {
            assert(baixo@.take(i + 1).drop_last() =~= baixo@.take(i as int));
        }
        if is_alphanumeric(c) || is_whitespace(c) {
            f.push(c);
        }
        i = i + 1;
    }
    assert(baixo@.take(baixo@.len() as int) =~= baixo@);
    squeezed(f.as_slice())
}

/// Comparação frouxa de nomes, para casar o que o player diz com o que o
/// serviço devolve. Só caixa, espaço e pontuação: nada de aproximação por
/// distância — capa de outro disco na tela é pior que capa nenhuma.
pub fn parecidos(a: &str, b: &str) -> (r: bool)
    ensures
        r == (loose_name(a@) == loose_name(b@)),
{
    let x = limpar(a);
    let y = limpar(b);
    eq_chars(x.as_slice(), y.as_slice())
}

/// Caixa e espaço nas pontas não distinguem discos: o mesmo artista e o
/// mesmo álbum, escritos como cada player escreve, dão a mesma chave.
pub proof fn law_a_chave_ignora_caixa_e_espaco(a1: Seq<char>, a2: Seq<char>, b1: Seq<char>, b2: Seq<char>)
    requires
        unicode_lowercase(trim(a1)) == unicode_lowercase(trim(a2)),
        unicode_lowercase(trim(b1)) == unicode_lowercase(trim(b2)),
    ensures
        album_key(a1, b1) == album_key(a2, b2),
{
}

} // verus!
