//! Atalho global, registrado no compositor.
//!
//! Wayland não deixa um aplicativo capturar uma combinação de teclas fora da
//! própria janela. O app **pede** ao Hyprland que registre o atalho, apontando
//! de volta para o próprio executável. Aqui fica o que pedir e como ler a
//! resposta; falar com o `hyprctl` é de fora da biblioteca.

use vstd::prelude::*;

use crate::text::{
    chars_of, extend, join, join_chars, pieces_view, split_char, split_chars, string_of, trim,
    trimmed, unicode_lowercase, words, words_of,
};
use crate::webview::i18n::{as_map, UiError};
use crate::webview::overlay::compositor::hyprland::{is_ok_answer, Dialeto};

verus! {

/// `SUPER SHIFT, L` → `SUPER + SHIFT + L`: as palavras de cada lado da
/// vírgula, todas ligadas por ` + `.
pub open spec fn lua_combo(atalho: Seq<char>) -> Seq<char> {
    join(split_char(atalho, ',').map_values(|p: Seq<char>| words(p)).flatten(), " + "@)
}

/// Traduz a notação que o app guarda — `SUPER SHIFT, L`, a do
/// `hyprland.conf` — para a que a API Lua espera: `SUPER + SHIFT + L`.
/// Sem modificador, `", L"` vira `"L"`, sem `+` sobrando nas pontas.
pub fn para_lua(atalho: &str) -> (r: String)
    ensures
        r@ == lua_combo(atalho@),
{
    let lados = split_chars(chars_of(atalho).as_slice(), ',');
    let ghost ls = pieces_view(lados@);
    let ghost per = ls.map_values(|p: Seq<char>| words(p));
    let mut todas: Vec<Vec<char>> = Vec::new();
    let mut i: usize = 0;
    while i < lados.len()
        invariant
            i <= lados@.len(),
            ls == pieces_view(lados@),
            per == ls.map_values(|p: Seq<char>| words(p)),
            pieces_view(todas@) == per.take(i as int).flatten(),
        decreases lados@.len() - i,
    {
        let mut ws = words_of(lados[i].as_slice());
        let ghost antes = pieces_view(todas@);
        let ghost novas = pieces_view(ws@);
        todas.append(&mut ws);
        assert(pieces_view(todas@) =~= antes + novas);
        proof {
            assert(per.take(i + 1).drop_last() =~= per.take(i as int));
            assert(per[i as int] == words(lados@[i as int]@));
            per.take(i as int).lemma_flatten_push(per[i as int]);
            assert(per.take(i + 1) =~= per.take(i as int).push(per[i as int]));
        }
        i = i + 1;
    }
    assert(per.take(lados@.len() as int) =~= per);
    string_of(join_chars(todas.as_slice(), " + ").as_slice())
}

/// Barra invertida e aspas escapadas, para caber numa string Lua.
pub open spec fn lua_escaped(s: Seq<char>) -> Seq<char>
    decreases s.len(),
{
    if s.len() == 0 {
        Seq::empty()
    } else {
        let c = s.last();
        lua_escaped(s.drop_last()) + if c == '\\' {
            seq!['\\', '\\']
        } else if c == '"' {
            seq!['\\', '"']
        } else {
            seq![c]
        }
    }
}

/// Escapa o que quebraria a string Lua. O comando carrega um caminho de
/// arquivo, e um diretório com aspas no nome derrubaria o `eval` inteiro.
pub fn lua_escape(s: &str) -> (r: String)
    ensures
        r@ == lua_escaped(s@),
{
    let cs = chars_of(s);
    let mut out: Vec<char> = Vec::new();
    let mut i: usize = 0;
    while i < cs.len()
        invariant
            i <= cs@.len(),
            out@ == lua_escaped(cs@.take(i as int)),
        decreases cs@.len() - i,
    {
        proof {
            assert(cs@.take(i + 1).drop_last() =~= cs@.take(i as int));
        }
        let c = cs[i];
        if c == '\\' {
            out.push('\\');
            out.push('\\');
        } else if c == '"' {
            out.push('\\');
            out.push('"');
        } else {
            out.push(c);
        }
        i = i + 1;
        assert(out@ =~= lua_escaped(cs@.take(i as int)));
    }
    assert(cs@.take(cs@.len() as int) =~= cs@);
    string_of(out.as_slice())
}

/// Os argumentos do `hyprctl` que ligam `atalho` ao `comando`.
pub open spec fn bind_args(d: Dialeto, atalho: Seq<char>, comando: Seq<char>) -> Seq<Seq<char>> {
    match d {
        Dialeto::Legado => seq!["keyword"@, "bind"@, atalho + ","@ + "exec,"@ + comando],
        Dialeto::Lua => seq![
            "eval"@,
            "hl.bind(\""@ + lua_escaped(lua_combo(atalho)) + "\", hl.dsp.exec_cmd(\""@
                + lua_escaped(comando) + "\"))"@,
        ],
    }
}

/// Os argumentos do `hyprctl` que desligam `atalho`.
pub open spec fn unbind_args(d: Dialeto, atalho: Seq<char>) -> Seq<Seq<char>> {
    match d {
        Dialeto::Legado => seq!["keyword"@, "unbind"@, atalho],
        Dialeto::Lua => seq!["eval"@, "hl.unbind(\""@ + lua_escaped(lua_combo(atalho)) + "\")"@],
    }
}

pub open spec fn strings_view(v: Seq<String>) -> Seq<Seq<char>> {
    v.map_values(|s: String| s@)
}

pub fn bind(d: Dialeto, atalho: &str, comando: &str) -> (r: Vec<String>)
    ensures
        strings_view(r@) == bind_args(d, atalho@, comando@),
{
    let mut r: Vec<String> = Vec::new();
    match d {
        Dialeto::Legado => {
            r.push(string_of(chars_of("keyword").as_slice()));
            r.push(string_of(chars_of("bind").as_slice()));
            let mut c = chars_of(atalho);
            extend(&mut c, chars_of(",").as_slice());
            extend(&mut c, chars_of("exec,").as_slice());
            extend(&mut c, chars_of(comando).as_slice());
            r.push(string_of(c.as_slice()));
        },
        Dialeto::Lua => {
            r.push(string_of(chars_of("eval").as_slice()));
            let mut c = chars_of("hl.bind(\"");
            extend(&mut c, chars_of(lua_escape(para_lua(atalho).as_str()).as_str()).as_slice());
            extend(&mut c, chars_of("\", hl.dsp.exec_cmd(\"").as_slice());
            extend(&mut c, chars_of(lua_escape(comando).as_str()).as_slice());
            extend(&mut c, chars_of("\"))").as_slice());
            r.push(string_of(c.as_slice()));
        },
    }
    assert(strings_view(r@) =~= bind_args(d, atalho@, comando@));
    r
}

pub fn unbind(d: Dialeto, atalho: &str) -> (r: Vec<String>)
    ensures
        strings_view(r@) == unbind_args(d, atalho@),
{
    let mut r: Vec<String> = Vec::new();
    match d {
        Dialeto::Legado => {
            r.push(string_of(chars_of("keyword").as_slice()));
            r.push(string_of(chars_of("unbind").as_slice()));
            r.push(string_of(chars_of(atalho).as_slice()));
        },
        Dialeto::Lua => {
            r.push(string_of(chars_of("eval").as_slice()));
            let mut c = chars_of("hl.unbind(\"");
            extend(&mut c, chars_of(lua_escape(para_lua(atalho).as_str()).as_str()).as_slice());
            extend(&mut c, chars_of("\")").as_slice());
            r.push(string_of(c.as_slice()));
        },
    }
    assert(strings_view(r@) =~= unbind_args(d, atalho@));
    r
}

/// O que falta pedir ao compositor para trocar o atalho: os atalhos a
/// desligar, na ordem, e o que ligar depois, se houver.
#[derive(Debug, Clone)]
pub struct Troca {
    pub desligar: Vec<String>,
    pub ligar: Option<String>,
}

/// Texto sem nada além de espaço.
pub open spec fn blank(s: Seq<char>) -> bool {
    trim(s).len() == 0
}

/// Desligar o anterior, se havia um; desligar o novo antes de ligar, para que
/// reaplicar o mesmo atalho a cada partida não empilhe binds repetidos.
pub open spec fn swap_plan(anterior: Seq<char>, novo: Seq<char>) -> (Seq<Seq<char>>, Option<Seq<char>>) {
    let antes = if blank(anterior) { Seq::empty() } else { seq![anterior] };
    if blank(novo) {
        (antes, None)
    } else {
        (antes.push(novo), Some(novo))
    }
}

/// Troca o atalho ativo. Os dois lados podem ser vazios: `""` significa
/// "nenhum atalho". Só o Hyprland sabe registrar atalho por este caminho.
pub fn apply(anterior: &str, novo: &str, hyprland: bool) -> (r: Result<Troca, UiError>)
    ensures
        !hyprland ==> (r is Err && r->Err_0.code_view() == "hotkey.onlyHyprland"@
            && r->Err_0.pairs().len() == 0),
        hyprland ==> (r is Ok && (strings_view(r->Ok_0.desligar@), match r->Ok_0.ligar {
            Some(s) => Some(s@),
            None => None,
        }) == swap_plan(anterior@, novo@)),
{
    if !hyprland {
        return Err(UiError::new("hotkey.onlyHyprland"));
    }
    let mut desligar: Vec<String> = Vec::new();
    if trimmed(chars_of(anterior).as_slice()).len() > 0 {
        desligar.push(string_of(chars_of(anterior).as_slice()));
    }
    let ghost antes = strings_view(desligar@);
    if trimmed(chars_of(novo).as_slice()).len() == 0 {
        return Ok(Troca { desligar, ligar: None });
    }
    desligar.push(string_of(chars_of(novo).as_slice()));
    assert(strings_view(desligar@) =~= antes.push(novo@));
    Ok(Troca { desligar, ligar: Some(string_of(chars_of(novo).as_slice())) })
}

/// O que o compositor respondeu ao pedido de ligar `novo`: `ok` é aceito;
/// qualquer outra resposta é uma combinação que ele não entendeu; falha ao
/// falar com ele é outra coisa.
pub fn desfecho(novo: &str, saida: Result<String, String>) -> (r: Result<(), UiError>)
    ensures
        match saida {
            Err(e) => r is Err && r->Err_0.code_view() == "hotkey.compositorFailed"@ && as_map(
                r->Err_0.pairs(),
            ) == Map::<Seq<char>, Seq<char>>::empty().insert("motivo"@, e@),
            Ok(s) => if is_ok_answer(s@) {
                r is Ok
            } else {
                r is Err && r->Err_0.code_view() == "hotkey.refused"@ && as_map(r->Err_0.pairs())
                    == Map::<Seq<char>, Seq<char>>::empty().insert("atalho"@, novo@).insert(
                    "motivo"@,
                    trim(s@),
                )
            },
        },
{
    match saida {
        Err(e) => {
            let r0 = UiError::new("hotkey.compositorFailed");
            assert(as_map(r0.pairs()) =~= Map::empty());
            Err(r0.arg("motivo", e.as_str()))
        },
        Ok(s) => {
            if crate::webview::overlay::compositor::hyprland::checar(s.as_str()) {
                Ok(())
            } else {
                let r0 = UiError::new("hotkey.refused");
                assert(as_map(r0.pairs()) =~= Map::empty());
                let motivo = string_of(trimmed(chars_of(s.as_str()).as_slice()).as_slice());
                Err(r0.arg("atalho", novo).arg("motivo", motivo.as_str()))
            }
        },
    }
}

/// Remove o atalho — usado ao sair, para não deixar um bind apontando para um
/// executável que não está mais rodando. Devolve o atalho a desligar, quando
/// há algo a fazer.
pub fn clear(atalho: &str, hyprland: bool) -> (r: Option<String>)
    ensures
        (hyprland && !blank(atalho@)) ==> (r is Some && r->0@ == atalho@),
        !(hyprland && !blank(atalho@)) ==> r is None,
{
    if hyprland && trimmed(chars_of(atalho).as_slice()).len() > 0 {
        Some(string_of(chars_of(atalho).as_slice()))
    } else {
        None
    }
}

} // verus!
