//! Log em arquivo.
//!
//! O `stderr` não serve para app lançado pelo menu do sistema: ninguém o vê.
//! **Erro que o usuário pode resolver aparece na tela** (por `UiError`);
//! **erro que ele não pode resolver fica no arquivo**, para quem for
//! investigar depois. Aqui ficam as regras: onde fica o arquivo, quando
//! rotacionar, e como cada linha se escreve. Abrir e escrever é de fora.

use vstd::prelude::*;

use crate::text::{chars_of, decimal, extend, join_path, path_join, string_of, zero_pad, zero_padded};


verus! {

/// A partir daqui o arquivo é rotacionado. O anterior é preservado como `.1`,
/// então o teto de disco é 2 MiB.
pub const LIMITE_BYTES: u64 = 1048576;

#[derive(Clone, Copy, Debug, PartialEq, Eq, Structural)]
pub enum Nivel {
    Info,
    Aviso,
    Erro,
}

pub open spec fn nivel_text(n: Nivel) -> Seq<char> {
    match n {
        Nivel::Info => "info"@,
        Nivel::Aviso => "aviso"@,
        Nivel::Erro => "erro"@,
    }
}

impl Nivel {
    /// `info`, `aviso`, `erro`.
    pub fn rotulo(&self) -> (r: &'static str)
        ensures
            r@ == nivel_text(*self),
    {
        match self {
            Nivel::Info => "info",
            Nivel::Aviso => "aviso",
            Nivel::Erro => "erro",
        }
    }
}

// ---------------------------------------------------------------------------
// Onde fica
// ---------------------------------------------------------------------------

/// O diretório de estado: `$XDG_STATE_HOME/lyricslens` quando a variável tem
/// algo, senão `$HOME/.local/state/lyricslens`; sem nenhum dos dois, nenhum.
pub open spec fn state_dir(xdg_state_home: Option<Seq<char>>, home: Option<Seq<char>>) -> Option<
    Seq<char>,
> {
    match xdg_state_home {
        Some(v) if v.len() > 0 => Some(path_join(v, "lyricslens"@)),
        _ => match home {
            Some(h) => Some(
                path_join(path_join(path_join(h, ".local"@), "state"@), "lyricslens"@),
            ),
            None => None,
        },
    }
}

pub open spec fn opt_view(o: Option<&str>) -> Option<Seq<char>> {
    match o {
        Some(s) => Some(s@),
        None => None,
    }
}

/// `~/.local/state/lyricslens`, respeitando `XDG_STATE_HOME`, dados os
/// valores das duas variáveis.
pub fn diretorio(xdg_state_home: Option<&str>, home: Option<&str>) -> (r: Option<String>)
    ensures
        match state_dir(opt_view(xdg_state_home), opt_view(home)) {
            Some(d) => r is Some && r->0@ == d,
            None => r is None,
        },
{
    let d = match xdg_state_home {
        Some(v) if v.unicode_len() > 0 => join_path(chars_of(v).as_slice(), "lyricslens"),
        _ => match home {
            Some(h) => {
                let a = join_path(chars_of(h).as_slice(), ".local");
                let b = join_path(a.as_slice(), "state");
                join_path(b.as_slice(), "lyricslens")
            },
            None => return None,
        },
    };
    Some(string_of(d.as_slice()))
}

/// O arquivo de log, dentro do diretório de estado.
pub fn arquivo(xdg_state_home: Option<&str>, home: Option<&str>) -> (r: Option<String>)
    ensures
        match state_dir(opt_view(xdg_state_home), opt_view(home)) {
            Some(d) => r is Some && r->0@ == path_join(d, "lyricslens.log"@),
            None => r is None,
        },
{
    match diretorio(xdg_state_home, home) {
        Some(d) => Some(string_of(join_path(chars_of(d.as_str()).as_slice(), "lyricslens.log").as_slice())),
        None => None,
    }
}

/// O arquivo anterior, preservado na rotação.
pub fn anterior(xdg_state_home: Option<&str>, home: Option<&str>) -> (r: Option<String>)
    ensures
        match state_dir(opt_view(xdg_state_home), opt_view(home)) {
            Some(d) => r is Some && r->0@ == path_join(d, "lyricslens.log.1"@),
            None => r is None,
        },
{
    match diretorio(xdg_state_home, home) {
        Some(d) => Some(
            string_of(join_path(chars_of(d.as_str()).as_slice(), "lyricslens.log.1").as_slice()),
        ),
        None => None,
    }
}

/// O arquivo já chegou ao teto e deve ir para `.1` antes de abrir.
pub fn rotacionar(tamanho: u64) -> (r: bool)
    ensures
        r == (tamanho >= LIMITE_BYTES),
{
    tamanho >= LIMITE_BYTES
}

// ---------------------------------------------------------------------------
// Carimbo de tempo, em UTC
// ---------------------------------------------------------------------------

/// Dias desde 1970-01-01 → data civil (ano, mês, dia), pelo algoritmo do
/// Howard Hinnant: desloca o início do ano para março, o que faz o dia
/// bissexto cair no fim.
pub open spec fn civil(dias: int) -> (int, u32, u32) {
    let z = dias + 719_468;
    let era = z / 146_097;
    let doe = z % 146_097;
    let yoe = (doe - doe / 1460 + doe / 36_524 - doe / 146_096) / 365;
    let ano = yoe + era * 400;
    let doy = doe - (365 * yoe + yoe / 4 - yoe / 100);
    let mp = (5 * doy + 2) / 153;
    let dia = (doy - (153 * mp + 2) / 5 + 1) as u32;
    let mes = (if mp < 10 { mp + 3 } else { mp - 9 }) as u32;
    (if mes <= 2 { ano + 1 } else { ano }, mes, dia)
}

fn div(a: i64, b: i64) -> (r: i64)
    requires
        b > 0,
    ensures
        r == a / b,
{
    assert(i64::MIN <= a / b <= i64::MAX) by (nonlinear_arith)
        requires
            b > 0,
            i64::MIN <= a <= i64::MAX,
    ;
    match a.checked_div_euclid(b) {
        Some(q) => q,
        None => 0,
    }
}

fn rem(a: i64, b: i64) -> (r: i64)
    requires
        b > 0,
    ensures
        r == a % b,
{
    match a.checked_rem_euclid(b) {
        Some(q) => q,
        None => 0,
    }
}

/// Dias desde 1970-01-01 → data civil.
pub fn civil_de_dias(dias: i64) -> (r: (i64, u32, u32))
    requires
        dias <= i64::MAX - 719_468,
    ensures
        (r.0 as int, r.1, r.2) == civil(dias as int),
{
    let z = dias + 719_468;
    let era = div(z, 146_097);
    let doe = rem(z, 146_097);
    let yoe = div(doe - div(doe, 1460) + div(doe, 36_524) - div(doe, 146_096), 365);
    assert(-100_000_000_000_000 < era < 100_000_000_000_000) by (nonlinear_arith)
        requires
            era == z / 146_097,
            i64::MIN <= z <= i64::MAX,
    ;
    let ano = yoe + era * 400;
    let doy = doe - (365 * yoe + div(yoe, 4) - div(yoe, 100));
    let mp = div(5 * doy + 2, 153);
    let dia = (doy - div(153 * mp + 2, 5) + 1) as u32;
    let mes = (if mp < 10 { mp + 3 } else { mp - 9 }) as u32;
    (if mes <= 2 { ano + 1 } else { ano }, mes, dia)
}

/// O ano com sinal, em pelo menos quatro caracteres: `{:04}`.
pub open spec fn year_text(ano: int) -> Seq<char> {
    if ano >= 0 {
        zero_pad(decimal(ano as nat), 4)
    } else {
        seq!['-'] + zero_pad(decimal((-ano) as nat), 3)
    }
}

/// Segundos desde o epoch → `2026-08-04T17:45:12Z`.
pub open spec fn iso(segundos: int) -> Seq<char> {
    let dias = segundos / 86_400;
    let resto = segundos % 86_400;
    let (ano, mes, dia) = civil(dias);
    year_text(ano) + seq!['-'] + zero_pad(decimal(mes as nat), 2) + seq!['-'] + zero_pad(
        decimal(dia as nat),
        2,
    ) + seq!['T'] + zero_pad(decimal((resto / 3600) as nat), 2) + seq![':'] + zero_pad(
        decimal(((resto % 3600) / 60) as nat),
        2,
    ) + seq![':'] + zero_pad(decimal((resto % 60) as nat), 2) + seq!['Z']
}

fn ano_texto(ano: i64) -> (r: Vec<char>)
    ensures
        r@ == year_text(ano as int),
{
    if ano >= 0 {
        zero_padded(ano as u64, 4)
    } else {
        let mut out: Vec<char> = Vec::new();
        out.push('-');
        let n: u64 = if ano == i64::MIN {
            9_223_372_036_854_775_808u64
        } else {
            (-ano) as u64
        };
        extend(&mut out, zero_padded(n, 3).as_slice());
        out
    }
}

/// Segundos desde o epoch → `2026-08-04T17:45:12Z`. Data anterior ao epoch
/// também sai certa: o relógio do sistema pode estar errado.
pub fn iso_de_epoch(segundos: i64) -> (r: String)
    ensures
        r@ == iso(segundos as int),
{
    let dias = div(segundos, 86_400);
    let resto = rem(segundos, 86_400);
    let (ano, mes, dia) = civil_de_dias(dias);
    let mut out = ano_texto(ano);
    out.push('-');
    extend(&mut out, zero_padded(mes as u64, 2).as_slice());
    out.push('-');
    extend(&mut out, zero_padded(dia as u64, 2).as_slice());
    out.push('T');
    extend(&mut out, zero_padded((resto / 3600) as u64, 2).as_slice());
    out.push(':');
    extend(&mut out, zero_padded(((resto % 3600) / 60) as u64, 2).as_slice());
    out.push(':');
    extend(&mut out, zero_padded((resto % 60) as u64, 2).as_slice());
    out.push('Z');
    string_of(out.as_slice())
}

/// Uma linha do log: `carimbo [nível] alvo: mensagem`.
pub open spec fn line_text(carimbo: Seq<char>, nivel: Nivel, alvo: Seq<char>, mensagem: Seq<
    char,
>) -> Seq<char> {
    carimbo + seq![' ', '['] + nivel_text(nivel) + seq![']', ' '] + alvo + seq![':', ' '] + mensagem
}

pub fn linha(carimbo: &str, nivel: Nivel, alvo: &str, mensagem: &str) -> (r: String)
    ensures
        r@ == line_text(carimbo@, nivel, alvo@, mensagem@),
{
    let mut out = chars_of(carimbo);
    out.push(' ');
    out.push('[');
    extend(&mut out, chars_of(nivel.rotulo()).as_slice());
    out.push(']');
    out.push(' ');
    extend(&mut out, chars_of(alvo).as_slice());
    out.push(':');
    out.push(' ');
    extend(&mut out, chars_of(mensagem).as_slice());
    string_of(out.as_slice())
}

} // verus!
