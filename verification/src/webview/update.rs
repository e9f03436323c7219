//! Aviso de versão nova.
//!
//! A instalação é um AppImage **extraído**: o atualizador oficial não a acha.
//! Aqui só se descobre que há versão nova; quem troca a instalação de lado é o
//! script de instalação, chamado de fora da biblioteca.

use vstd::prelude::*;

use crate::text::{
    decimal, decimal_chars, extend, chars_of, contains, index_of, index_of_char, parse_u64, parse_u64_chars,
    pieces_view, split_char, split_chars, string_of,
};

verus! {

/// A versão deste pacote.
pub const ATUAL: &'static str = "0.1.0";

#[derive(Debug, Clone)]
pub struct UpdateInfo {
    pub current: String,
    pub latest: Option<String>,
    pub available: bool,
    /// Só instalações feitas pelo script sabem se atualizar sozinhas. Em
    /// desenvolvimento, ou num `.deb`, quem atualiza é outro.
    pub can_apply: bool,
}

/// Um número que cabe em `u32`, como `str::parse::<u32>` o lê.
pub open spec fn parse_u32(s: Seq<char>) -> Option<u32> {
    match parse_u64(s) {
        Some(v) => if v <= u32::MAX {
            Some(v as u32)
        } else {
            None
        },
        None => None,
    }
}

fn parse_u32_chars(s: &[char]) -> (r: Option<u32>)
    ensures
        r == parse_u32(s@),
{
    match parse_u64_chars(s) {
        Some(v) => if v <= 0xffff_ffffu64 {
            Some(v as u32)
        } else {
            None
        },
        None => None,
    }
}

/// Caracteres que podem fazer parte de uma versão: dígitos e pontos. Os
/// outros separam os pedaços; para separar, todos valem um espaço.
pub open spec fn as_separator(c: char) -> char {
    if ('0' <= c <= '9') || c == '.' {
        c
    } else {
        ' '
    }
}

/// Os pedaços feitos só de dígitos e pontos, vazios incluídos.
pub open spec fn version_pieces(texto: Seq<char>) -> Seq<Seq<char>> {
    split_char(texto.map_values(|c: char| as_separator(c)), ' ')
}

/// A versão de um pedaço com ponto: os três primeiros números.
pub open spec fn piece_version(pedaco: Seq<char>) -> Option<(u32, u32, u32)> {
    let n = split_char(pedaco, '.');
    if index_of(pedaco, '.') is Some && n.len() >= 3 {
        match (parse_u32(n[0]), parse_u32(n[1]), parse_u32(n[2])) {
            (Some(a), Some(b), Some(c)) => Some((a, b, c)),
            _ => None,
        }
    } else {
        None
    }
}

/// O primeiro pedaço, de `i` em diante, que é uma versão.
pub open spec fn first_version(ps: Seq<Seq<char>>, i: int) -> Option<(u32, u32, u32)>
    decreases ps.len() - i,
{
    if i < 0 || i >= ps.len() {
        None
    } else {
        match piece_version(ps[i]) {
            Some(v) => Some(v),
            None => first_version(ps, i + 1),
        }
    }
}

/// `1.2.3` de qualquer coisa que contenha uma versão — `v1.2.3`,
/// `lyricslens-v1.2.3`, `1.2.3-beta`.
pub open spec fn version_in(texto: Seq<char>) -> Option<(u32, u32, u32)> {
    first_version(version_pieces(texto), 0)
}

fn versao_do_pedaco(pedaco: &[char]) -> (r: Option<(u32, u32, u32)>)
    ensures
        r == piece_version(pedaco@),
{
    if index_of_char(pedaco, '.', 0).is_none() {
        return None;
    }
    let n = split_chars(pedaco, '.');
    proof {
        assert(pieces_view(n@)[0] == n@[0]@);
    }
    if n.len() < 3 {
        return None;
    }
    assert(pieces_view(n@)[1] == n@[1]@);
    assert(pieces_view(n@)[2] == n@[2]@);
    match (
        parse_u32_chars(n[0].as_slice()),
        parse_u32_chars(n[1].as_slice()),
        parse_u32_chars(n[2].as_slice()),
    ) {
        (Some(a), Some(b), Some(c)) => Some((a, b, c)),
        _ => None,
    }
}

/// Extrai `1.2.3` de qualquer coisa que contenha uma versão.
pub fn versao(texto: &str) -> (r: Option<(u32, u32, u32)>)
    ensures
        r == version_in(texto@),
{
    let s = chars_of(texto);
    let mut m: Vec<char> = Vec::new();
    let mut i: usize = 0;
    while i < s.len()
        invariant
            i <= s@.len(),
            m@ == s@.take(i as int).map_values(|c: char| as_separator(c)),
        decreases s@.len() - i,
    {
        let c = s[i];
        m.push(if ('0' <= c && c <= '9') || c == '.' { c } else { ' ' });
        i = i + 1;
        assert(m@ =~= s@.take(i as int).map_values(|c: char| as_separator(c)));
    }
    assert(s@.take(s@.len() as int) =~= s@);
    let pedacos = split_chars(m.as_slice(), ' ');
    let ghost ps = pieces_view(pedacos@);
    let mut k: usize = 0;
    while k < pedacos.len()
        invariant
            k <= pedacos@.len(),
            ps == pieces_view(pedacos@),
            ps == version_pieces(texto@),
            first_version(ps, 0) == first_version(ps, k as int),
        decreases pedacos@.len() - k,
    {
        assert(ps[k as int] == pedacos@[k as int]@);
        if let Some(v) = versao_do_pedaco(pedacos[k].as_slice()) {
            return Some(v);
        }
        k = k + 1;
    }
    None
}

/// Uma versão vem depois da outra: componente a componente, como números.
pub open spec fn version_after(nova: (u32, u32, u32), atual: (u32, u32, u32)) -> bool {
    ||| nova.0 > atual.0
    ||| nova.0 == atual.0 && nova.1 > atual.1
    ||| nova.0 == atual.0 && nova.1 == atual.1 && nova.2 > atual.2
}

/// Há versão nova quando as duas são legíveis e a publicada vem depois.
pub open spec fn update_available(atual: Seq<char>, publicada: Seq<char>) -> bool {
    match (version_in(atual), version_in(publicada)) {
        (Some(a), Some(n)) => version_after(n, a),
        _ => false,
    }
}

/// `a.b.c`.
pub open spec fn version_text(v: (u32, u32, u32)) -> Seq<char> {
    decimal(v.0 as nat) + seq!['.'] + decimal(v.1 as nat) + seq!['.'] + decimal(v.2 as nat)
}

fn texto_da_versao(v: (u32, u32, u32)) -> (r: String)
    ensures
        r@ == version_text(v),
{
    let mut out = decimal_chars(v.0 as u64);
    out.push('.');
    extend(&mut out, decimal_chars(v.1 as u64).as_slice());
    out.push('.');
    extend(&mut out, decimal_chars(v.2 as u64).as_slice());
    string_of(out.as_slice())
}

/// O que a tela de configurações mostra, dada a etiqueta da última release e
/// se a instalação sabe se trocar.
pub fn update_info(etiqueta: &str, can_apply: bool) -> (r: UpdateInfo)
    ensures
        r.current@ == ATUAL@,
        r.available == update_available(ATUAL@, etiqueta@),
        r.can_apply == can_apply,
        match version_in(etiqueta@) {
            Some(v) => r.latest is Some && r.latest->0@ == version_text(v),
            None => r.latest is None,
        },
{
    let publicada = versao(etiqueta);
    let disponivel = match (versao(ATUAL), publicada) {
        (Some(atual), Some(nova)) => nova.0 > atual.0 || (nova.0 == atual.0 && nova.1 > atual.1)
            || (nova.0 == atual.0 && nova.1 == atual.1 && nova.2 > atual.2),
        _ => false,
    };
    UpdateInfo {
        current: string_of(chars_of(ATUAL).as_slice()),
        latest: match publicada {
            Some(v) => Some(texto_da_versao(v)),
            None => None,
        },
        available: disponivel,
        can_apply,
    }
}

} // verus!
