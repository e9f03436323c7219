//! Sway, e os outros que falam o IPC do i3.
//!
//! O `swaymsg` tem o equivalente de tudo o que o app pede ao `hyprctl`, com uma
//! diferença que muda o desenho: **a notação de atalho é outra**. O Hyprland
//! quer `SUPER SHIFT, L`; o Sway quer `Mod4+Shift+l`. A captura na interface
//! produz a do Hyprland, então aqui há uma tradução — e ela é pura.

use vstd::prelude::*;

use crate::text::{
    chars_of, eq_chars, extend, i32_chars, index_of, index_of_char, int_text, join, join_chars,
    lowercase, pieces_view, slice_vec, string_of, trim, trimmed, unicode_lowercase,
    unicode_uppercase, uppercase, words, words_of,
};
use crate::webview::i18n::{as_map, UiError};
use crate::webview::overlay::compositor::{rect_de, retangulo_de, Campos, TITULO};
use crate::webview::overlay::hotkey::{blank, strings_view, Troca};

verus! {

/// O `SWAYSOCK` é o sinal confiável: ele só existe, e não vazio, com o Sway
/// rodando.
pub fn rodando(swaysock: Option<&str>) -> (r: bool)
    ensures
        r == (swaysock is Some && swaysock->0@.len() > 0),
{
    match swaysock {
        Some(v) => v.unicode_len() > 0,
        None => false,
    }
}

/// Um comando no critério que casa só a janela do overlay, por título.
pub open spec fn on_overlay(comando: Seq<char>) -> Seq<char> {
    "[title=\"^"@ + TITULO@ + "$\"] "@ + comando
}

pub fn no_overlay(comando: &str) -> (r: String)
    ensures
        r@ == on_overlay(comando@),
{
    let mut c = chars_of("[title=\"^");
    extend(&mut c, chars_of(TITULO).as_slice());
    extend(&mut c, chars_of("$\"] ").as_slice());
    extend(&mut c, chars_of(comando).as_slice());
    string_of(c.as_slice())
}

/// Os comandos que preparam a janela: flutuar, fixar e assumir o tamanho.
/// `enable` é idempotente no Sway, então não é preciso consultar o estado.
pub fn preparar(largura: i32, altura: i32) -> (r: Vec<String>)
    ensures
        strings_view(r@) == seq![
            on_overlay("floating enable"@),
            on_overlay("sticky enable"@),
            on_overlay("resize set "@ + int_text(largura as int) + " "@ + int_text(altura as int)),
        ],
{
    let mut r: Vec<String> = Vec::new();
    r.push(no_overlay("floating enable"));
    r.push(no_overlay("sticky enable"));
    let mut c = chars_of("resize set ");
    extend(&mut c, i32_chars(largura).as_slice());
    extend(&mut c, chars_of(" ").as_slice());
    extend(&mut c, i32_chars(altura).as_slice());
    r.push(no_overlay(string_of(c.as_slice()).as_str()));
    assert(strings_view(r@) =~= seq![
        on_overlay("floating enable"@),
        on_overlay("sticky enable"@),
        on_overlay("resize set "@ + int_text(largura as int) + " "@ + int_text(altura as int)),
    ]);
    r
}

pub fn mover(x: i32, y: i32) -> (r: String)
    ensures
        r@ == on_overlay("move absolute position "@ + int_text(x as int) + " "@ + int_text(y as int)),
{
    let mut c = chars_of("move absolute position ");
    extend(&mut c, i32_chars(x).as_slice());
    extend(&mut c, chars_of(" ").as_slice());
    extend(&mut c, i32_chars(y).as_slice());
    no_overlay(string_of(c.as_slice()).as_str())
}

/// O monitor que contém o ponto `(x, y)`: o Sway não diz em qual saída a
/// janela está, descobre-se por conter.
pub open spec fn contains_point(m: (i32, i32, i32, i32), x: int, y: int) -> bool {
    x >= m.0 && x < m.0 + m.2 && y >= m.1 && y < m.1 + m.3
}

pub fn monitor_que_contem(monitores: &[(i32, i32, i32, i32)], x: i32, y: i32) -> (r: Option<
    (i32, i32, i32, i32),
>)
    ensures
        match r {
            Some(m) => exists|i: int|
                0 <= i < monitores@.len() && monitores@[i] == m && contains_point(m, x as int, y as int)
                    && forall|j: int| 0 <= j < i ==> !contains_point(#[trigger] monitores@[j], x as int, y as int),
            None => forall|j: int| 0 <= j < monitores@.len() ==> !contains_point(#[trigger] monitores@[j], x as int, y as int),
        },
{
    let mut i: usize = 0;
    while i < monitores.len()
        invariant
            i <= monitores@.len(),
            forall|j: int| 0 <= j < i ==> !contains_point(#[trigger] monitores@[j], x as int, y as int),
        decreases monitores@.len() - i,
    {
        let (mx, my, mw, mh) = monitores[i];
        if (x as i64) >= (mx as i64) && (x as i64) < (mx as i64) + (mw as i64) && (y as i64) >= (
        my as i64) && (y as i64) < (my as i64) + (mh as i64) {
            return Some(monitores[i]);
        }
        i = i + 1;
    }
    None
}

/// Um modificador na notação do Sway: os conhecidos pelo nome, os outros em
/// caixa alta.
pub open spec fn modifier_name(m: Seq<char>) -> Seq<char> {
    let up = unicode_uppercase(m);
    if up == "SUPER"@ {
        "Mod4"@
    } else if up == "CTRL"@ || up == "CONTROL"@ {
        "Ctrl"@
    } else if up == "ALT"@ {
        "Mod1"@
    } else if up == "SHIFT"@ {
        "Shift"@
    } else {
        up
    }
}

/// O Sway espera o keysym do X11: minúscula para letra, nome próprio para as
/// especiais.
pub open spec fn key_name(tecla: Seq<char>) -> Seq<char> {
    if tecla.len() == 1 {
        unicode_lowercase(tecla)
    } else {
        tecla
    }
}

/// `SUPER SHIFT, L` → `Mod4+Shift+l`; sem vírgula ou sem tecla, nada.
pub open spec fn sway_combo(atalho: Seq<char>) -> Option<Seq<char>> {
    match index_of(atalho, ',') {
        Some(k) => {
            let tecla = trim(atalho.skip(k + 1));
            if tecla.len() == 0 {
                None
            } else {
                Some(
                    join(
                        words(atalho.take(k)).map_values(|m: Seq<char>| modifier_name(m)).push(
                            key_name(tecla),
                        ),
                        "+"@,
                    ),
                )
            }
        },
        None => None,
    }
}

fn e(a: &[char], b: &str) -> (r: bool)
    ensures
        r == (a@ == b@),
{
    eq_chars(a, chars_of(b).as_slice())
}

fn nome_do_modificador(m: &[char]) -> (r: Vec<char>)
    ensures
        r@ == modifier_name(m@),
{
    let up = uppercase(m);
    if e(up.as_slice(), "SUPER") {
        chars_of("Mod4")
    } else if e(up.as_slice(), "CTRL") || e(up.as_slice(), "CONTROL") {
        chars_of("Ctrl")
    } else if e(up.as_slice(), "ALT") {
        chars_of("Mod1")
    } else if e(up.as_slice(), "SHIFT") {
        chars_of("Shift")
    } else {
        up
    }
}

/// `SUPER SHIFT, L` → `Mod4+Shift+l`.
///
/// A captura na interface fala a notação do Hyprland. Traduzir aqui — e não
/// mudar a captura — mantém o arquivo de preferências portátil.
pub fn atalho_do_hyprland(atalho: &str) -> (r: Option<String>)
    ensures
        match sway_combo(atalho@) {
            Some(c) => r is Some && r->0@ == c,
            None => r is None,
        },
{
    let s = chars_of(atalho);
    let k = match index_of_char(s.as_slice(), ',', 0) {
        Some(k) => k,
        None => return None,
    };
    proof {
        crate::text::lemma_index_of_from(s@, ',', 0);
    }
    let n = s.len();
    let depois = slice_vec(s.as_slice(), k + 1, n);
    assert(depois@ =~= s@.skip(k + 1));
    let tecla = trimmed(depois.as_slice());
    if tecla.len() == 0 {
        return None;
    }
    let mods = slice_vec(s.as_slice(), 0, k);
    assert(mods@ =~= s@.take(k as int));
    let ws = words_of(mods.as_slice());
    let ghost wv = pieces_view(ws@);
    let mut partes: Vec<Vec<char>> = Vec::new();
    let mut i: usize = 0;
    while i < ws.len()
        invariant
            i <= ws@.len(),
            wv == pieces_view(ws@),
            partes@.len() == i,
            forall|j: int| 0 <= j < i ==> (#[trigger] partes@[j])@ == modifier_name(wv[j]),
        decreases ws@.len() - i,
    {
        assert(wv[i as int] == ws@[i as int]@);
        partes.push(nome_do_modificador(ws[i].as_slice()));
        i = i + 1;
    }
    assert(pieces_view(partes@) =~= wv.map_values(|m: Seq<char>| modifier_name(m)));
    let ghost antes = pieces_view(partes@);
    if tecla.len() == 1 {
        partes.push(lowercase(tecla.as_slice()));
    } else {
        partes.push(tecla);
    }
    assert(pieces_view(partes@) =~= antes.push(key_name(trim(s@.skip(k + 1)))));
    Some(string_of(join_chars(partes.as_slice(), "+").as_slice()))
}

/// `bindsym <combo> exec <comando>`.
pub fn bindsym(combo: &str, comando: &str) -> (r: String)
    ensures
        r@ == "bindsym "@ + combo@ + " exec "@ + comando@,
{
    let mut c = chars_of("bindsym ");
    extend(&mut c, chars_of(combo).as_slice());
    extend(&mut c, chars_of(" exec ").as_slice());
    extend(&mut c, chars_of(comando).as_slice());
    string_of(c.as_slice())
}

/// `unbindsym <combo>`.
pub fn unbindsym(combo: &str) -> (r: String)
    ensures
        r@ == "unbindsym "@ + combo@,
{
    let mut c = chars_of("unbindsym ");
    extend(&mut c, chars_of(combo).as_slice());
    string_of(c.as_slice())
}

/// O combo que o Sway conhece para desligar `atalho`, quando há um.
pub fn limpar_atalho(atalho: &str) -> (r: Option<String>)
    ensures
        match sway_combo(atalho@) {
            Some(c) => r is Some && r->0@ == c,
            None => r is None,
        },
{
    atalho_do_hyprland(atalho)
}

/// O que pedir ao Sway para trocar o atalho: desligar o anterior, quando havia
/// um que ele entenda, e ligar o novo; um novo sem tecla é recusado.
pub fn troca(anterior: &str, novo: &str) -> (r: Result<Troca, UiError>)
    ensures
        blank(novo@) ==> r is Ok && r->Ok_0.ligar is None,
        !blank(novo@) && sway_combo(novo@) is None ==> (r is Err && r->Err_0.code_view()
            == "hotkey.refused"@ && as_map(r->Err_0.pairs()) == Map::<Seq<char>, Seq<char>>::empty().insert(
            "atalho"@,
            novo@,
        ).insert("motivo"@, "combinação incompleta"@)),
        !blank(novo@) && sway_combo(novo@) is Some ==> (r is Ok && r->Ok_0.ligar is Some
            && r->Ok_0.ligar->0@ == sway_combo(novo@)->0),
        r is Ok ==> strings_view(r->Ok_0.desligar@) == if !blank(anterior@) && sway_combo(
            anterior@,
        ) is Some {
            seq![sway_combo(anterior@)->0]
        } else {
            Seq::empty()
        },
{
    let mut desligar: Vec<String> = Vec::new();
    if trimmed(chars_of(anterior).as_slice()).len() > 0 {
        if let Some(combo) = limpar_atalho(anterior) {
            desligar.push(combo);
        }
    }
    assert(strings_view(desligar@) =~= if !blank(anterior@) && sway_combo(anterior@) is Some {
        seq![sway_combo(anterior@)->0]
    } else {
        Seq::empty()
    });
    if trimmed(chars_of(novo).as_slice()).len() == 0 {
        return Ok(Troca { desligar, ligar: None });
    }
    match atalho_do_hyprland(novo) {
        Some(combo) => Ok(Troca { desligar, ligar: Some(combo) }),
        None => {
            let r0 = UiError::new("hotkey.refused");
            assert(as_map(r0.pairs()) =~= Map::empty());
            Err(r0.arg("atalho", novo).arg("motivo", "combinação incompleta"))
        },
    }
}

// ---------------------------------------------------------------------------
// A árvore do `get_tree` e as saídas do `get_outputs`
// ---------------------------------------------------------------------------

/// Um nó da árvore que `swaymsg -t get_tree` devolve, com o que se lê dele.
#[derive(Debug)]
pub struct No {
    pub name: Option<String>,
    /// `nodes`, quando o campo existe e é uma lista.
    pub nodes: Option<Vec<No>>,
    /// `floating_nodes`, quando o campo existe e é uma lista.
    pub floating_nodes: Option<Vec<No>>,
    /// `rect`, quando existe: x, y, largura e altura.
    pub rect: Option<Campos>,
}

/// O primeiro nó com este nome, descendo primeiro pelos `nodes` e depois
/// pelos `floating_nodes`. Um nó sem a lista de `nodes` encerra a busca ali
/// mesmo; sem a de `floating_nodes`, encerra depois dos `nodes`.
pub open spec fn achado(no: No, alvo: Seq<char>) -> Option<No>
    decreases no, 0int,
{
    if no.name matches Some(n) && n@ == alvo {
        Some(no)
    } else {
        match no.nodes {
            None => None,
            Some(ns) => match achado_desde(ns@, 0, alvo) {
                Some(x) => Some(x),
                None => match no.floating_nodes {
                    None => None,
                    Some(fs) => achado_desde(fs@, 0, alvo),
                },
            },
        }
    }
}

/// O primeiro achado entre os nós a partir do `i`-ésimo.
pub open spec fn achado_desde(ns: Seq<No>, i: int, alvo: Seq<char>) -> Option<No>
    decreases ns, ns.len() - i,
{
    if 0 <= i < ns.len() {
        match achado(ns[i], alvo) {
            Some(x) => Some(x),
            None => achado_desde(ns, i + 1, alvo),
        }
    } else {
        None
    }
}

/// O nó com este nome, na ordem em que o Sway o descreve.
pub fn achar_no<'a>(no: &'a No, alvo: &str) -> (r: Option<&'a No>)
    ensures
        match achado(*no, alvo@) {
            Some(x) => r matches Some(y) && *y == x,
            None => r is None,
        },
    decreases *no, 0int,
{
    if let Some(n) = &no.name {
        if crate::text::same_text(n.as_str(), alvo) {
            return Some(no);
        }
    }
    let nodes = match &no.nodes {
        Some(ns) => ns,
        None => return None,
    };
    if let Some(a) = achar_desde(nodes, 0, alvo) {
        return Some(a);
    }
    let flutuantes = match &no.floating_nodes {
        Some(fs) => fs,
        None => return None,
    };
    achar_desde(flutuantes, 0, alvo)
}

fn achar_desde<'a>(ns: &'a Vec<No>, i: usize, alvo: &str) -> (r: Option<&'a No>)
    requires
        i <= ns@.len(),
    ensures
        match achado_desde(ns@, i as int, alvo@) {
            Some(x) => r matches Some(y) && *y == x,
            None => r is None,
        },
    decreases ns@, ns@.len() - i,
{
    if i >= ns.len() {
        return None;
    }
    match achar_no(&ns[i], alvo) {
        Some(a) => Some(a),
        None => achar_desde(ns, i + 1, alvo),
    }
}

/// `(x, y, largura, altura)` do `rect` de um nó, quando os quatro vieram.
pub fn retangulo(no: &No) -> (r: Option<(i32, i32, i32, i32)>)
    ensures
        r == match no.rect {
            Some(c) => rect_de(c),
            None => None,
        },
{
    match no.rect {
        Some(c) => retangulo_de(c),
        None => None,
    }
}

/// Onde o overlay está na árvore: o canto do `rect` do nó com o título dele.
pub fn posicao_na_arvore(arvore: &No) -> (r: Option<(i32, i32)>)
    ensures
        r == match achado(*arvore, TITULO@) {
            Some(n) => match n.rect {
                Some(c) => match rect_de(c) {
                    Some(q) => Some((q.0, q.1)),
                    None => None,
                },
                None => None,
            },
            None => None,
        },
{
    let no = match achar_no(arvore, TITULO) {
        Some(no) => no,
        None => return None,
    };
    match retangulo(no) {
        Some((x, y, _, _)) => Some((x, y)),
        None => None,
    }
}

/// Uma saída de `swaymsg -t get_outputs`, com o que se lê dela.
#[derive(Debug, Clone)]
pub struct Saida {
    pub active: Option<bool>,
    pub rect: Option<Campos>,
}

pub open spec fn monitor_da_saida(s: Saida) -> Option<(i32, i32, i32, i32)> {
    if s.active == Some(false) {
        None
    } else {
        match s.rect {
            Some(c) => rect_de(c),
            None => None,
        }
    }
}

/// Os monitores: as saídas que não se dizem inativas e têm `rect` inteiro,
/// na ordem do Sway.
pub fn monitores(saidas: &[Saida]) -> (r: Vec<(i32, i32, i32, i32)>)
    ensures
        r@ == saidas@.filter_map(|s: Saida| monitor_da_saida(s)),
{
    let mut out: Vec<(i32, i32, i32, i32)> = Vec::new();
    let mut i: usize = 0;
    while i < saidas.len()
        invariant
            i <= saidas@.len(),
            out@ == saidas@.take(i as int).filter_map(|s: Saida| monitor_da_saida(s)),
        decreases saidas@.len() - i,
    {
        proof {
            assert(saidas@.take(i + 1).drop_last() =~= saidas@.take(i as int));
            assert(saidas@.take(i + 1).last() == saidas@[i as int]);
        }
        let s = &saidas[i];
        let m = if s.active == Some(false) {
            None
        } else {
            match s.rect {
                Some(c) => retangulo_de(c),
                None => None,
            }
        };
        if let Some(q) = m {
            out.push(q);
        }
        assert(out@ =~= saidas@.take(i + 1).filter_map(|s: Saida| monitor_da_saida(s)));
        i = i + 1;
    }
    assert(saidas@.take(saidas@.len() as int) =~= saidas@);
    out
}

} // verus!
