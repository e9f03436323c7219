//! Onde a janela do overlay fica.
//!
//! Em Wayland o cliente não decide onde fica nem se fica por cima: isso é do
//! compositor. Aqui ficam as contas — se uma posição guardada ainda cai em
//! algum monitor, e onde recentralizar quando não cai; pedir ao compositor é
//! de fora da biblioteca.

pub mod compositor;
pub mod hotkey;

use vstd::prelude::*;

use crate::lyrics::lrc::{lines_from, lines_of};
use crate::text::{
    chars_of, index_of_char, lemma_index_of_from, lemma_text_lt_total, lemma_text_lt_transitive,
    less_than, same_text, slice_vec, string_of, text_lt, trim, trimmed,
};

verus! {

/// Tamanho e folga do rodapé, vindos das preferências do usuário.
#[derive(Clone, Copy, Debug)]
pub struct Geometry {
    pub width: i32,
    pub height: i32,
    pub margin_bottom: i32,
    /// Onde o usuário largou a janela. `None` recentraliza no rodapé.
    pub position: Option<(i32, i32)>,
    /// Borrar o que está atrás do overlay. Quem borra é o compositor.
    pub blur: bool,
    /// Quando a janela é uma camada do compositor, quem posiciona é o
    /// protocolo — as regras via IPC não se aplicam e atrapalhariam.
    pub layer_shell: bool,
}

/// Quanto da janela precisa sobrar dentro de um monitor para ela ainda ser
/// alcançável com o mouse.
pub const VISIVEL_MINIMO: i32 = 48;

pub open spec fn min(a: int, b: int) -> int {
    if a < b {
        a
    } else {
        b
    }
}

pub open spec fn max(a: int, b: int) -> int {
    if a > b {
        a
    } else {
        b
    }
}

/// A janela em `(x, y)`, de tamanho `w × h`, sobra o bastante dentro do
/// monitor `m = (x, y, largura, altura)`.
pub open spec fn fits_in(m: (i32, i32, i32, i32), x: int, y: int, w: int, h: int) -> bool {
    let sobra_x = min(x + w, m.0 + m.2) - max(x, m.0 as int);
    let sobra_y = min(y + h, m.1 + m.3) - max(y, m.1 as int);
    sobra_x >= min(VISIVEL_MINIMO as int, w) && sobra_y >= min(VISIVEL_MINIMO as int, h)
}

/// A posição guardada ainda cai em algum monitor que existe? Sem saber onde
/// estão os monitores, não há base para discordar do que está gravado.
pub open spec fn visible(
    monitores: Seq<(i32, i32, i32, i32)>,
    x: int,
    y: int,
    w: int,
    h: int,
) -> bool {
    monitores.len() == 0 || exists|i: int| 0 <= i < monitores.len() && fits_in(#[trigger] monitores[i], x, y, w, h)
}

fn cabe_em(m: (i32, i32, i32, i32), x: i32, y: i32, w: i32, h: i32) -> (r: bool)
    ensures
        r == fits_in(m, x as int, y as int, w as int, h as int),
{
    let (mx, my, mw, mh) = m;
    let fim_x: i64 = if (x as i64) + (w as i64) < (mx as i64) + (mw as i64) {
        (x as i64) + (w as i64)
    } else {
        (mx as i64) + (mw as i64)
    };
    let inicio_x: i64 = if x > mx { x as i64 } else { mx as i64 };
    let fim_y: i64 = if (y as i64) + (h as i64) < (my as i64) + (mh as i64) {
        (y as i64) + (h as i64)
    } else {
        (my as i64) + (mh as i64)
    };
    let inicio_y: i64 = if y > my { y as i64 } else { my as i64 };
    let minimo_x: i64 = if VISIVEL_MINIMO < w { VISIVEL_MINIMO as i64 } else { w as i64 };
    let minimo_y: i64 = if VISIVEL_MINIMO < h { VISIVEL_MINIMO as i64 } else { h as i64 };
    fim_x - inicio_x >= minimo_x && fim_y - inicio_y >= minimo_y
}

/// A posição guardada ainda cai em algum monitor que existe?
///
/// As coordenadas são absolutas, e atravessam todos os monitores. Desconectar
/// um monitor externo faz essas coordenadas apontarem para o nada — e obedecer
/// a elas some com a janela sem o usuário ter como trazê-la de volta.
pub fn posicao_visivel(monitores: &[(i32, i32, i32, i32)], xy: (i32, i32), w: i32, h: i32) -> (r:
    bool)
    ensures
        r == visible(monitores@, xy.0 as int, xy.1 as int, w as int, h as int),
{
    if monitores.len() == 0 {
        return true;
    }
    let mut i: usize = 0;
    while i < monitores.len()
        invariant
            i <= monitores@.len(),
            forall|j: int| 0 <= j < i ==> !fits_in(#[trigger] monitores@[j], xy.0 as int, xy.1 as int, w as int, h as int),
        decreases monitores@.len() - i,
    {
        if cabe_em(monitores[i], xy.0, xy.1, w, h) {
            return true;
        }
        i = i + 1;
    }
    false
}

/// A divisão de `i32`, que corta em direção ao zero.
pub open spec fn div_toward_zero(a: int, b: int) -> int {
    if a >= 0 {
        a / b
    } else {
        -((-a) / b)
    }
}

/// Uma posição de rodapé, quando cabe em `i32`.
pub open spec fn footer_fits(m: (i32, i32, i32, i32), geo: Geometry) -> bool {
    let x = m.0 + div_toward_zero(m.2 - geo.width, 2);
    let y = m.1 + m.3 - geo.height - geo.margin_bottom;
    i32::MIN <= m.2 - geo.width <= i32::MAX && i32::MIN <= x <= i32::MAX && i32::MIN <= m.1 + m.3
        <= i32::MAX && i32::MIN <= m.1 + m.3 - geo.height <= i32::MAX && i32::MIN <= y <= i32::MAX
}

fn rodape(m: (i32, i32, i32, i32), geo: Geometry) -> (r: Option<(i32, i32)>)
    ensures
        footer_fits(m, geo) ==> r == Some(
            (
                (m.0 + div_toward_zero(m.2 - geo.width, 2)) as i32,
                (m.1 + m.3 - geo.height - geo.margin_bottom) as i32,
            ),
        ),
        !footer_fits(m, geo) ==> r is None,
{
    let (mx, my, mw, mh) = m;
    let livre: i64 = (mw as i64) - (geo.width as i64);
    let meio: i64 = if livre >= 0 { livre / 2 } else { 0 - ((0 - livre) / 2) };
    let x: i64 = (mx as i64) + meio;
    let y: i64 = (my as i64) + (mh as i64) - (geo.height as i64) - (geo.margin_bottom as i64);
    let fits = -2147483648i64 <= livre && livre <= 2147483647i64 && -2147483648i64 <= x && x
        <= 2147483647i64 && -2147483648i64 <= (my as i64) + (mh as i64) && (my as i64) + (mh as i64)
        <= 2147483647i64 && -2147483648i64 <= (my as i64) + (mh as i64) - (geo.height as i64) && (
    my as i64) + (mh as i64) - (geo.height as i64) <= 2147483647i64 && -2147483648i64 <= y && y
        <= 2147483647i64;
    if fits {
        Some((x as i32, y as i32))
    } else {
        None
    }
}

/// Onde a janela deve ficar, dados os monitores e o monitor onde o overlay
/// está. Uma posição guardada que não cabe mais em tela nenhuma é descartada
/// em favor do rodapé — o alternativo é a janela sumir.
///
/// `None` também quando a conta do rodapé não cabe em `i32`: feita em 32
/// bits, ela estouraria.
pub fn posicao_desejada(
    monitores: &[(i32, i32, i32, i32)],
    do_overlay: Option<(i32, i32, i32, i32)>,
    geo: Geometry,
) -> (r: Option<(i32, i32)>)
    ensures
        match geo.position {
            Some(xy) if visible(monitores@, xy.0 as int, xy.1 as int, geo.width as int, geo.height as int) => r
                == Some(xy),
            _ => {
                let fallback = match do_overlay {
                    Some(m) => Some(m),
                    None => if monitores@.len() > 0 {
                        Some(monitores@[0])
                    } else {
                        None
                    },
                };
                match fallback {
                    Some(m) => if footer_fits(m, geo) {
                        r == Some(
                            (
                                (m.0 + div_toward_zero(m.2 - geo.width, 2)) as i32,
                                (m.1 + m.3 - geo.height - geo.margin_bottom) as i32,
                            ),
                        )
                    } else {
                        r is None
                    },
                    None => r is None,
                }
            },
        },
{
    if let Some(xy) = geo.position {
        if posicao_visivel(monitores, xy, geo.width, geo.height) {
            return Some(xy);
        }
    }
    let alvo = match do_overlay {
        Some(m) => Some(m),
        None => if monitores.len() > 0 {
            Some(monitores[0])
        } else {
            None
        },
    };
    match alvo {
        Some(m) => rodape(m, geo),
        None => None,
    }
}

// ---------------------------------------------------------------------------
// Fontes instaladas
// ---------------------------------------------------------------------------

/// As linhas de `fc-list --format '%{family[0]}\n'`, cada uma aparada.
pub open spec fn familias(saida: Seq<char>) -> Seq<Seq<char>> {
    lines_of(saida).map_values(|l: Seq<char>| trim(l))
}

/// Em ordem de `String`, sem nenhum repetido.
pub open spec fn em_ordem_sem_repeticao(s: Seq<Seq<char>>) -> bool {
    forall|i: int, j: int| 0 <= i < j < s.len() ==> text_lt(#[trigger] s[i], #[trigger] s[j])
}

pub open spec fn nomes(v: Seq<String>) -> Seq<Seq<char>> {
    v.map_values(|s: String| s@)
}

/// Põe `x` no lugar dele, se ainda não estiver lá.
fn inserir_sem_repetir(v: &mut Vec<String>, x: String)
    requires
        em_ordem_sem_repeticao(nomes(old(v)@)),
    ensures
        em_ordem_sem_repeticao(nomes(final(v)@)),
        forall|y: Seq<char>| nomes(final(v)@).contains(y) <==> (nomes(old(v)@).contains(y) || y == x@),
{
    let xc = chars_of(x.as_str());
    let ghost antes = nomes(v@);
    let mut k: usize = 0;
    while k < v.len() && less_than(chars_of(v[k].as_str()).as_slice(), xc.as_slice())
        invariant
            k <= v@.len(),
            xc@ == x@,
            v@ == old(v)@,
            antes == nomes(v@),
            forall|j: int| 0 <= j < k ==> text_lt(#[trigger] antes[j], x@),
        decreases v@.len() - k,
    {
        k = k + 1;
    }
    if k < v.len() && same_text(v[k].as_str(), x.as_str()) {
        assert(antes[k as int] == x@);
        assert forall|y: Seq<char>| nomes(v@).contains(y) <==> (antes.contains(y) || y == x@) by {
            if y == x@ {
                assert(antes[k as int] == y);
            }
        }
        return;
    }
    proof {
        assert forall|j: int| k <= j < antes.len() implies text_lt(x@, #[trigger] antes[j]) by {
            assert(!text_lt(antes[k as int], x@));
            lemma_text_lt_total(antes[k as int], x@);
            assert(antes[k as int] != x@);
            assert(text_lt(x@, antes[k as int]));
            if j > k {
                assert(text_lt(antes[k as int], antes[j]));
                lemma_text_lt_transitive(x@, antes[k as int], antes[j]);
            }
        }
    }
    v.insert(k, x);
    proof {
        let depois = nomes(v@);
        assert(depois =~= antes.insert(k as int, x@));
        assert forall|a: int, b: int| 0 <= a < b < depois.len() implies text_lt(
            #[trigger] depois[a],
            #[trigger] depois[b],
        ) by {
            if b < k {
                assert(depois[a] == antes[a] && depois[b] == antes[b]);
            } else if b == k {
                assert(depois[a] == antes[a]);
            } else if a < k {
                assert(depois[a] == antes[a] && depois[b] == antes[b - 1]);
                assert(text_lt(antes[a], x@));
                assert(text_lt(x@, antes[b - 1]));
                lemma_text_lt_transitive(antes[a], x@, antes[b - 1]);
            } else if a == k {
                assert(depois[b] == antes[b - 1]);
            } else {
                assert(depois[a] == antes[a - 1] && depois[b] == antes[b - 1]);
            }
        }
        assert forall|y: Seq<char>| depois.contains(y) <==> (antes.contains(y) || y == x@) by {
            if depois.contains(y) {
                let i = choose|i: int| 0 <= i < depois.len() && depois[i] == y;
                if i < k {
                    assert(antes[i] == y);
                } else if i > k {
                    assert(antes[i - 1] == y);
                }
            }
            if antes.contains(y) {
                let i = choose|i: int| 0 <= i < antes.len() && antes[i] == y;
                if i < k {
                    assert(depois[i] == y);
                } else {
                    assert(depois[i + 1] == y);
                }
            }
            if y == x@ {
                assert(depois[k as int] == y);
            }
        }
    }
}

/// As fontes instaladas, da saída do `fc-list`: cada linha aparada, sem as
/// vazias, em ordem e sem repetição.
pub fn fontes_da_saida(saida: &str) -> (r: Vec<String>)
    ensures
        em_ordem_sem_repeticao(nomes(r@)),
        forall|x: Seq<char>| nomes(r@).contains(x) <==> (x.len() > 0 && familias(saida@).contains(x)),
{
    let s = chars_of(saida);
    let mut out: Vec<String> = Vec::new();
    let ghost mut feitas: Seq<Seq<char>> = Seq::empty();
    let mut pos: usize = 0;
    while pos < s.len()
        invariant
            pos <= s@.len(),
            s@ == saida@,
            lines_of(s@) == feitas + lines_from(s@, pos as int),
            em_ordem_sem_repeticao(nomes(out@)),
            forall|x: Seq<char>| nomes(out@).contains(x) <==> (x.len() > 0 && feitas.map_values(
                |l: Seq<char>| trim(l),
            ).contains(x)),
        decreases s@.len() - pos,
    {
        proof {
            lemma_index_of_from(s@, '\n', pos as int);
        }
        let (end, next) = match index_of_char(s.as_slice(), '\n', pos) {
            Some(k) => (k, k + 1),
            None => (s.len(), s.len()),
        };
        let mut line = slice_vec(s.as_slice(), pos, end);
        if end < s.len() && line.len() > 0 && line[line.len() - 1] == '\r' {
            line.pop();
        }
        let ghost antes = feitas;
        proof {
            assert(line@ == lines_from(s@, pos as int)[0]);
            assert(lines_from(s@, pos as int) =~= seq![line@] + lines_from(s@, next as int)) by {
                if next == s@.len() {
                    assert(lines_from(s@, next as int) =~= Seq::<Seq<char>>::empty());
                }
            }
            feitas = feitas.push(line@);
            assert(lines_of(s@) =~= feitas + lines_from(s@, next as int));
            assert(feitas.map_values(|l: Seq<char>| trim(l)) =~= antes.map_values(
                |l: Seq<char>| trim(l),
            ).push(trim(line@)));
        }
        let t = trimmed(line.as_slice());
        let ghost ts = antes.map_values(|l: Seq<char>| trim(l));
        if t.len() > 0 {
            inserir_sem_repetir(&mut out, string_of(t.as_slice()));
        }
        proof {
            let novas = feitas.map_values(|l: Seq<char>| trim(l));
            assert forall|x: Seq<char>| novas.contains(x) <==> (ts.contains(x) || x == t@) by {
                if novas.contains(x) {
                    let i = choose|i: int| 0 <= i < novas.len() && novas[i] == x;
                    if i < ts.len() {
                        assert(ts[i] == x);
                    }
                }
                if ts.contains(x) {
                    let i = choose|i: int| 0 <= i < ts.len() && ts[i] == x;
                    assert(novas[i] == x);
                }
                if x == t@ {
                    assert(novas[novas.len() - 1] == x);
                }
            }
        }
        pos = next;
    }
    proof {
        assert(lines_from(s@, pos as int) =~= Seq::<Seq<char>>::empty());
        assert(feitas =~= lines_of(s@));
    }
    out
}

} // verus!
