//! Hyprland, via `hyprctl`: o que pedir, em qual sintaxe, e como ler o que
//! ele responde. Rodar o `hyprctl` é de fora da biblioteca.

use vstd::prelude::*;

use crate::text::{
    ascii_lower_seq, ascii_lowercase, chars_of, contains, contains_chars, extend, index_of,
    index_of_char, int_text, i32_chars, parse_i32, parse_i32_chars, slice_vec, starts_with,
    same_text, starts_with_chars, string_of, trim, trimmed,
};
use crate::webview::overlay::compositor::{rect_de, retangulo_de, Campos, NAMESPACE, TITULO};
use crate::webview::overlay::hotkey::strings_view;

verus! {

/// O seletor que casa **só** a janela do overlay: por título, porque a janela
/// de configurações é do mesmo processo e da mesma classe.
pub const SELETOR: &'static str = "title:^(LyricsLens Overlay)$";

/// O Hyprland está rodando: `HYPRLAND_INSTANCE_SIGNATURE` existe.
pub fn rodando(assinatura: Option<&str>) -> (r: bool)
    ensures
        r == assinatura is Some,
{
    assinatura.is_some()
}

/// Qual sintaxe de `dispatch` o compositor desta máquina entende. O Hyprland
/// 0.55 trocou o parser do `hyprctl dispatch` por Lua.
#[derive(Clone, Copy, PartialEq, Eq, Debug, Structural)]
pub enum Dialeto {
    /// `dispatch setfloating title:^(...)$`
    Legado,
    /// `dispatch hl.dsp.window.float{ window = hl.get_window("...") }`
    Lua,
}

/// A sonda sem efeito colateral responde erro de sintaxe no Hyprland novo, e
/// `ok` no antigo.
pub open spec fn dialect_of(sonda: Seq<char>) -> Dialeto {
    if starts_with(sonda, "error:"@) || contains(sonda, "hl.dispatch"@) {
        Dialeto::Lua
    } else {
        Dialeto::Legado
    }
}

pub fn dialeto_da_sonda(sonda: &str) -> (d: Dialeto)
    ensures
        d == dialect_of(sonda@),
{
    let s = chars_of(sonda);
    if starts_with_chars(s.as_slice(), chars_of("error:").as_slice()) || contains_chars(
        s.as_slice(),
        chars_of("hl.dispatch").as_slice(),
    ) {
        Dialeto::Lua
    } else {
        Dialeto::Legado
    }
}

/// Os argumentos da sonda: um seletor que não casa com janela nenhuma.
pub fn sonda() -> (r: Vec<String>)
    ensures
        strings_view(r@) == seq!["dispatch"@, "setfloating"@, "title:^(__lyricslens_probe__)$"@],
{
    let mut r: Vec<String> = Vec::new();
    r.push(string_of(chars_of("dispatch").as_slice()));
    r.push(string_of(chars_of("setfloating").as_slice()));
    r.push(string_of(chars_of("title:^(__lyricslens_probe__)$").as_slice()));
    assert(strings_view(r@) =~= seq!["dispatch"@, "setfloating"@, "title:^(__lyricslens_probe__)$"@]);
    r
}

/// A janela do overlay, na forma que o dialeto Lua espera receber.
pub open spec fn lua_target() -> Seq<char> {
    "window = hl.get_window(\""@ + SELETOR@ + "\")"@
}

fn alvo_lua() -> (r: Vec<char>)
    ensures
        r@ == lua_target(),
{
    let mut c = chars_of("window = hl.get_window(\"");
    extend(&mut c, chars_of(SELETOR).as_slice());
    extend(&mut c, chars_of("\")").as_slice());
    c
}

fn dois(a: &str, b: Vec<char>) -> (r: Vec<String>)
    ensures
        strings_view(r@) == seq![a@, b@],
{
    let mut r: Vec<String> = Vec::new();
    r.push(string_of(chars_of(a).as_slice()));
    r.push(string_of(b.as_slice()));
    assert(strings_view(r@) =~= seq![a@, b@]);
    r
}

fn tres(a: &str, b: &str, c: Vec<char>) -> (r: Vec<String>)
    ensures
        strings_view(r@) == seq![a@, b@, c@],
{
    let mut r: Vec<String> = Vec::new();
    r.push(string_of(chars_of(a).as_slice()));
    r.push(string_of(chars_of(b).as_slice()));
    r.push(string_of(c.as_slice()));
    assert(strings_view(r@) =~= seq![a@, b@, c@]);
    r
}

/// Uma ação Lua sobre a janela do overlay: `hl.dsp.window.<acao>{ <alvo> }`.
pub open spec fn lua_window_action(acao: Seq<char>, antes: Seq<char>) -> Seq<char> {
    "hl.dsp.window."@ + acao + "{ "@ + antes + lua_target() + " }"@
}

fn acao_lua(acao: &str, antes: Vec<char>) -> (r: Vec<char>)
    ensures
        r@ == lua_window_action(acao@, antes@),
{
    let mut c = chars_of("hl.dsp.window.");
    extend(&mut c, chars_of(acao).as_slice());
    extend(&mut c, chars_of("{ ").as_slice());
    extend(&mut c, antes.as_slice());
    extend(&mut c, alvo_lua().as_slice());
    extend(&mut c, chars_of(" }").as_slice());
    c
}

/// Flutuar a janela. Na API Lua `float` é **toggle**: quem garante a
/// idempotência é quem chama, lendo o estado antes.
pub fn flutuar(d: Dialeto) -> (r: Vec<String>)
    ensures
        strings_view(r@) == match d {
            Dialeto::Legado => seq!["dispatch"@, "setfloating"@, SELETOR@],
            Dialeto::Lua => seq!["dispatch"@, lua_window_action("float"@, Seq::empty())],
        },
{
    match d {
        Dialeto::Legado => tres("dispatch", "setfloating", chars_of(SELETOR)),
        Dialeto::Lua => dois("dispatch", acao_lua("float", Vec::new())),
    }
}

/// Fixar em todas as áreas de trabalho. `pin` também é toggle.
pub fn fixar(d: Dialeto) -> (r: Vec<String>)
    ensures
        strings_view(r@) == match d {
            Dialeto::Legado => seq!["dispatch"@, "pin"@, SELETOR@],
            Dialeto::Lua => seq!["dispatch"@, lua_window_action("pin"@, Seq::empty())],
        },
{
    match d {
        Dialeto::Legado => tres("dispatch", "pin", chars_of(SELETOR)),
        Dialeto::Lua => dois("dispatch", acao_lua("pin", Vec::new())),
    }
}

/// `exact <a> <b>,<seletor>`, a forma legada de tamanho e posição.
pub open spec fn exact_args(a: i32, b: i32) -> Seq<char> {
    "exact "@ + int_text(a as int) + " "@ + int_text(b as int) + ","@ + SELETOR@
}

fn exato(a: i32, b: i32) -> (r: Vec<char>)
    ensures
        r@ == exact_args(a, b),
{
    let mut c = chars_of("exact ");
    extend(&mut c, i32_chars(a).as_slice());
    extend(&mut c, chars_of(" ").as_slice());
    extend(&mut c, i32_chars(b).as_slice());
    extend(&mut c, chars_of(",").as_slice());
    extend(&mut c, chars_of(SELETOR).as_slice());
    c
}

/// `x = <a>, y = <b>, `: as coordenadas no dialeto Lua.
pub open spec fn lua_xy(a: i32, b: i32) -> Seq<char> {
    "x = "@ + int_text(a as int) + ", y = "@ + int_text(b as int) + ", "@
}

fn xy_lua(a: i32, b: i32) -> (r: Vec<char>)
    ensures
        r@ == lua_xy(a, b),
{
    let mut c = chars_of("x = ");
    extend(&mut c, i32_chars(a).as_slice());
    extend(&mut c, chars_of(", y = ").as_slice());
    extend(&mut c, i32_chars(b).as_slice());
    extend(&mut c, chars_of(", ").as_slice());
    c
}

pub fn redimensionar(d: Dialeto, largura: i32, altura: i32) -> (r: Vec<String>)
    ensures
        strings_view(r@) == match d {
            Dialeto::Legado => seq!["dispatch"@, "resizewindowpixel"@, exact_args(largura, altura)],
            Dialeto::Lua => seq!["dispatch"@, lua_window_action("resize"@, lua_xy(largura, altura))],
        },
{
    match d {
        Dialeto::Legado => tres("dispatch", "resizewindowpixel", exato(largura, altura)),
        Dialeto::Lua => dois("dispatch", acao_lua("resize", xy_lua(largura, altura))),
    }
}

pub fn mover(d: Dialeto, x: i32, y: i32) -> (r: Vec<String>)
    ensures
        strings_view(r@) == match d {
            Dialeto::Legado => seq!["dispatch"@, "movewindowpixel"@, exact_args(x, y)],
            Dialeto::Lua => seq!["dispatch"@, lua_window_action("move"@, lua_xy(x, y))],
        },
{
    match d {
        Dialeto::Legado => tres("dispatch", "movewindowpixel", exato(x, y)),
        Dialeto::Lua => dois("dispatch", acao_lua("move", xy_lua(x, y))),
    }
}

/// O desfoque só é oferecido pela API Lua: no dialeto legado desfazer a regra
/// exigiria recarregar a configuração inteira do usuário.
pub fn sabe_desfocar(d: Dialeto) -> (r: bool)
    ensures
        r == (d == Dialeto::Lua),
{
    d == Dialeto::Lua
}

pub open spec fn bool_text(b: bool) -> Seq<char> {
    if b {
        "true"@
    } else {
        "false"@
    }
}

fn texto_bool(b: bool) -> (r: Vec<char>)
    ensures
        r@ == bool_text(b),
{
    if b {
        chars_of("true")
    } else {
        chars_of("false")
    }
}

/// As duas regras de desfoque, janela e camada: `no_blur` negativo casando
/// por título, `blur` positivo casando por namespace. Cada uma é um `eval`.
pub open spec fn blur_rules(atras: bool) -> (Seq<char>, Seq<char>) {
    (
        "hl.window_rule({ name = \"lyricslens-blur-janela\", match = { title = \"^("@ + TITULO@
            + ")$\" }, no_blur = "@ + bool_text(!atras) + " })"@,
        "hl.layer_rule({ name = \"lyricslens-blur-camada\", match = { namespace = \"^("@
            + NAMESPACE@ + ")$\" }, blur = "@ + bool_text(atras) + " })"@,
    )
}

pub fn regras_de_desfoque(atras: bool) -> (r: (String, String))
    ensures
        (r.0@, r.1@) == blur_rules(atras),
{
    let mut j = chars_of("hl.window_rule({ name = \"lyricslens-blur-janela\", match = { title = \"^(");
    extend(&mut j, chars_of(TITULO).as_slice());
    extend(&mut j, chars_of(")$\" }, no_blur = ").as_slice());
    extend(&mut j, texto_bool(!atras).as_slice());
    extend(&mut j, chars_of(" })").as_slice());
    let mut c = chars_of("hl.layer_rule({ name = \"lyricslens-blur-camada\", match = { namespace = \"^(");
    extend(&mut c, chars_of(NAMESPACE).as_slice());
    extend(&mut c, chars_of(")$\" }, blur = ").as_slice());
    extend(&mut c, texto_bool(atras).as_slice());
    extend(&mut c, chars_of(" })").as_slice());
    (string_of(j.as_slice()), string_of(c.as_slice()))
}

/// `ok`, sem caixa e sem espaço nas pontas: o que o Hyprland responde quando
/// aceita.
pub open spec fn is_ok_answer(saida: Seq<char>) -> bool {
    ascii_lower_seq(trim(saida)) == seq!['o', 'k']
}

pub fn checar(saida: &str) -> (r: bool)
    ensures
        r == is_ok_answer(saida@),
{
    let t = ascii_lowercase(trimmed(chars_of(saida).as_slice()).as_slice());
    if t.len() == 2 && t[0] == 'o' && t[1] == 'k' {
        assert(t@ =~= seq!['o', 'k']);
        true
    } else {
        false
    }
}

/// `"607, 881"` → `(607, 881)`.
pub open spec fn cursor_position(saida: Seq<char>) -> Option<(i32, i32)> {
    match index_of(saida, ',') {
        Some(k) => match (parse_i32(trim(saida.take(k))), parse_i32(trim(saida.skip(k + 1)))) {
            (Some(x), Some(y)) => Some((x, y)),
            _ => None,
        },
        None => None,
    }
}

/// Lê a posição do cursor que o `hyprctl cursorpos` responde. O `hyprctl`
/// pode responder erro em vez de coordenada; isso vira `None`.
pub fn ler_cursorpos(saida: &str) -> (r: Option<(i32, i32)>)
    ensures
        r == cursor_position(saida@),
{
    let s = chars_of(saida);
    match index_of_char(s.as_slice(), ',', 0) {
        Some(k) => {
            proof {
                crate::text::lemma_index_of_from(s@, ',', 0);
            }
            let n = s.len();
            let antes = slice_vec(s.as_slice(), 0, k);
            assert(antes@ =~= s@.take(k as int));
            let depois = slice_vec(s.as_slice(), k + 1, n);
            assert(depois@ =~= s@.skip(k + 1));
            match (
                parse_i32_chars(trimmed(antes.as_slice()).as_slice()),
                parse_i32_chars(trimmed(depois.as_slice()).as_slice()),
            ) {
                (Some(x), Some(y)) => Some((x, y)),
                _ => None,
            }
        },
        None => None,
    }
}

// ---------------------------------------------------------------------------
// O que o `hyprctl -j` conta
// ---------------------------------------------------------------------------

/// Uma janela de `hyprctl -j clients`, com o que se lê dela.
#[derive(Debug, Clone)]
pub struct Cliente {
    pub title: Option<String>,
    pub monitor: Option<i64>,
    pub floating: Option<bool>,
    pub pinned: Option<bool>,
    /// `at`, quando é uma lista: cada posição quando é inteira.
    pub at: Option<Vec<Option<i64>>>,
}

/// Um monitor de `hyprctl -j monitors`, com o que se lê dele.
#[derive(Debug, Clone)]
pub struct Monitor {
    pub id: Option<i64>,
    pub name: Option<String>,
    pub x: Option<i64>,
    pub y: Option<i64>,
    pub width: Option<i64>,
    pub height: Option<i64>,
}

/// Um monitor de `hyprctl -j layers`: o nome, e os `namespace` de todas as
/// camadas de todos os níveis, quando `levels` é um objeto.
#[derive(Debug, Clone)]
pub struct Camadas {
    pub monitor: String,
    pub namespaces: Option<Vec<Option<String>>>,
}

pub open spec fn e_o_overlay(c: Cliente) -> bool {
    c.title matches Some(t) && t@ == TITULO@
}

/// A janela do overlay: a primeira com o título dele.
pub fn cliente_overlay(clientes: &[Cliente]) -> (r: Option<usize>)
    ensures
        match r {
            Some(k) => k < clientes@.len() && e_o_overlay(clientes@[k as int]) && forall|j: int|
                0 <= j < k ==> !e_o_overlay(#[trigger] clientes@[j]),
            None => forall|j: int| 0 <= j < clientes@.len() ==> !e_o_overlay(#[trigger] clientes@[j]),
        },
{
    let mut i: usize = 0;
    while i < clientes.len()
        invariant
            i <= clientes@.len(),
            forall|j: int| 0 <= j < i ==> !e_o_overlay(#[trigger] clientes@[j]),
        decreases clientes@.len() - i,
    {
        if let Some(t) = &clientes[i].title {
            if same_text(t.as_str(), TITULO) {
                return Some(i);
            }
        }
        i = i + 1;
    }
    None
}

/// Flutuar e fixar são *toggles* no dialeto Lua, então só são pedidos quando
/// o estado atual não é o desejado: `(flutuar, fixar)`.
pub fn falta_preparar(cliente: Option<&Cliente>) -> (r: (bool, bool))
    ensures
        r.0 == !(cliente matches Some(c) && c.floating == Some(true)),
        r.1 == !(cliente matches Some(c) && c.pinned == Some(true)),
{
    match cliente {
        Some(c) => (c.floating != Some(true), c.pinned != Some(true)),
        None => (true, true),
    }
}

/// Onde a janela está: os dois primeiros números de `at`.
pub open spec fn posicao_de(c: Cliente) -> Option<(i32, i32)> {
    match c.at {
        Some(at) => if at.len() >= 2 && at[0] is Some && at[1] is Some {
            Some((at[0]->0 as i32, at[1]->0 as i32))
        } else {
            None
        },
        None => None,
    }
}

pub fn posicao_do_cliente(c: &Cliente) -> (r: Option<(i32, i32)>)
    ensures
        r == posicao_de(*c),
{
    let at = match &c.at {
        Some(at) => at,
        None => return None,
    };
    if at.len() < 2 {
        return None;
    }
    match (at[0], at[1]) {
        (Some(x), Some(y)) => Some((x as i32, y as i32)),
        _ => None,
    }
}

pub open spec fn e_o_namespace(o: Option<String>) -> bool {
    o matches Some(n) && n@ == NAMESPACE@
}

pub open spec fn tem_o_overlay(c: Camadas) -> bool {
    c.namespaces matches Some(ns) && exists|i: int| 0 <= i < ns.len() && e_o_namespace(#[trigger] ns[i])
}

fn tem_namespace(ns: &Vec<Option<String>>) -> (r: bool)
    ensures
        r == exists|i: int| 0 <= i < ns@.len() && e_o_namespace(#[trigger] ns@[i]),
{
    let mut i: usize = 0;
    while i < ns.len()
        invariant
            i <= ns@.len(),
            forall|j: int| 0 <= j < i ==> !e_o_namespace(#[trigger] ns@[j]),
        decreases ns@.len() - i,
    {
        if let Some(n) = &ns[i] {
            if same_text(n.as_str(), NAMESPACE) {
                return true;
            }
        }
        i = i + 1;
    }
    false
}

/// O monitor onde a **camada** do overlay está: uma layer surface não aparece
/// em `clients`, aquilo lista janelas, e camada não é janela.
pub fn monitor_da_camada(camadas: &[Camadas]) -> (r: Option<String>)
    ensures
        match r {
            Some(m) => exists|k: int|
                0 <= k < camadas@.len() && tem_o_overlay(camadas@[k]) && camadas@[k].monitor@ == m@
                    && forall|j: int| 0 <= j < k ==> !tem_o_overlay(#[trigger] camadas@[j]),
            None => forall|j: int| 0 <= j < camadas@.len() ==> !tem_o_overlay(#[trigger] camadas@[j]),
        },
{
    let mut i: usize = 0;
    while i < camadas.len()
        invariant
            i <= camadas@.len(),
            forall|j: int| 0 <= j < i ==> !tem_o_overlay(#[trigger] camadas@[j]),
        decreases camadas@.len() - i,
    {
        if let Some(ns) = &camadas[i].namespaces {
            if tem_namespace(ns) {
                return Some(camadas[i].monitor.clone());
            }
        }
        i = i + 1;
    }
    None
}

pub open spec fn campos_do_monitor(m: Monitor) -> Campos {
    (m.x, m.y, m.width, m.height)
}

/// Os monitores com os quatro números, na ordem do Hyprland.
pub fn monitores_do_compositor(monitores: &[Monitor]) -> (r: Vec<(i32, i32, i32, i32)>)
    ensures
        r@ == monitores@.filter_map(|m: Monitor| rect_de(campos_do_monitor(m))),
{
    let mut out: Vec<(i32, i32, i32, i32)> = Vec::new();
    let mut i: usize = 0;
    while i < monitores.len()
        invariant
            i <= monitores@.len(),
            out@ == monitores@.take(i as int).filter_map(|m: Monitor| rect_de(campos_do_monitor(m))),
        decreases monitores@.len() - i,
    {
        proof {
            assert(monitores@.take(i + 1).drop_last() =~= monitores@.take(i as int));
            assert(monitores@.take(i + 1).last() == monitores@[i as int]);
        }
        let m = &monitores[i];
        if let Some(q) = retangulo_de((m.x, m.y, m.width, m.height)) {
            out.push(q);
        }
        assert(out@ =~= monitores@.take(i + 1).filter_map(|m: Monitor| rect_de(campos_do_monitor(m))));
        i = i + 1;
    }
    assert(monitores@.take(monitores@.len() as int) =~= monitores@);
    out
}

/// Se este é o monitor procurado: pelo id da janela, quando ela tem um; senão
/// pelo nome do monitor da camada.
pub open spec fn e_o_monitor(m: Monitor, id: Option<i64>, nome: Option<Seq<char>>) -> bool {
    match id {
        Some(i) => m.id == Some(i),
        None => match nome {
            Some(n) => m.name matches Some(x) && x@ == n,
            None => false,
        },
    }
}

/// A geometria do monitor onde o overlay está: o primeiro que casa, e só
/// quando ele traz os quatro números. Sem id nem nome não há o que procurar.
pub fn monitor_do_overlay(id: Option<i64>, nome: Option<&str>, monitores: &[Monitor]) -> (r: Option<
    (i32, i32, i32, i32),
>)
    ensures
        ({
            let n = match nome {
                Some(s) => Some(s@),
                None => None::<Seq<char>>,
            };
            match r {
                Some(q) => exists|k: int|
                    0 <= k < monitores@.len() && e_o_monitor(monitores@[k], id, n) && rect_de(
                        campos_do_monitor(monitores@[k]),
                    ) == Some(q) && forall|j: int|
                        0 <= j < k ==> !e_o_monitor(#[trigger] monitores@[j], id, n),
                None => forall|k: int|
                    0 <= k < monitores@.len() && e_o_monitor(#[trigger] monitores@[k], id, n) ==> (
                    rect_de(campos_do_monitor(monitores@[k])) is None || exists|j: int|
                        0 <= j < k && e_o_monitor(#[trigger] monitores@[j], id, n)),
            }
        }),
{
    let ghost n = match nome {
        Some(s) => Some(s@),
        None => None::<Seq<char>>,
    };
    let mut i: usize = 0;
    while i < monitores.len()
        invariant
            i <= monitores@.len(),
            n == match nome {
                Some(s) => Some(s@),
                None => None::<Seq<char>>,
            },
            forall|j: int| 0 <= j < i ==> !e_o_monitor(#[trigger] monitores@[j], id, n),
        decreases monitores@.len() - i,
    {
        let m = &monitores[i];
        let casa = match id {
            Some(k) => m.id == Some(k),
            None => match (nome, &m.name) {
                (Some(want), Some(x)) => same_text(x.as_str(), want),
                _ => false,
            },
        };
        if casa {
            return retangulo_de((m.x, m.y, m.width, m.height));
        }
        i = i + 1;
    }
    None
}

} // verus!
