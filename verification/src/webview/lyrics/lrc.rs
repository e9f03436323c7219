//! O formato LRC, sem a leitura dos segundos.
//!
//! Os três detalhes que quase toda implementação erra ficam aqui:
//!
//! 1. **Uma linha pode ter vários timestamps** — cada um vira uma ocorrência,
//!    e a ordem final é a do tempo, não a do arquivo.
//! 2. **`[offset:+500]`** é ajuste de sincronia de graça, embutido no arquivo.
//! 3. **Linha sem texto é conteúdo, não lixo** — é ela que apaga a tela no
//!    intervalo instrumental.
//!
//! Os segundos de um timestamp (`12.34`) são lidos como número de ponto
//! flutuante, e só isso fica fora da biblioteca: as linhas, as tags, os
//! timestamps de cada linha, o texto e a ordem final estão aqui.

use vstd::prelude::*;

use crate::lyrics::lrc::{lines_from, lines_of};
use crate::text::{
    chars_of, index_of, index_of_char, index_of_from, lemma_index_of_from, parse_i64,
    parse_i64_chars, slice_vec, string_of, trim, trimmed, ascii_lower_seq, ascii_lowercase,
    same_text,
};
use crate::webview::lyrics::LyricLine;

verus! {

/// Resultado do parse, já ordenado por tempo.
#[derive(Debug, Default, PartialEq, Eq)]
pub struct ParsedLrc {
    pub lines: Vec<LyricLine>,
    pub offset_ms: i64,
}

/// Uma linha como os contratos a veem: quando, e o texto.
pub open spec fn par(l: LyricLine) -> (i64, Seq<char>) {
    (l.at_ms, l.text@)
}

pub open spec fn pares(s: Seq<LyricLine>) -> Seq<(i64, Seq<char>)> {
    s.map_values(|l: LyricLine| par(l))
}

/// Quantas entradas do começo de `t` não vêm depois de `at`.
pub open spec fn lugar(t: Seq<(i64, Seq<char>)>, at: i64) -> int
    decreases t.len(),
{
    if t.len() == 0 {
        0
    } else if t[0].0 <= at {
        1 + lugar(t.drop_first(), at)
    } else {
        0
    }
}

/// As linhas em ordem de tempo; entre tempos iguais, na ordem do arquivo.
pub open spec fn por_tempo(s: Seq<(i64, Seq<char>)>) -> Seq<(i64, Seq<char>)>
    decreases s.len(),
{
    if s.len() == 0 {
        s
    } else {
        let t = por_tempo(s.drop_last());
        t.insert(lugar(t, s.last().0), s.last())
    }
}

/// Cada par (tempo, texto) uma vez só, na primeira posição em que aparece.
pub open spec fn sem_repeticao(s: Seq<(i64, Seq<char>)>) -> Seq<(i64, Seq<char>)>
    decreases s.len(),
{
    if s.len() == 0 {
        s
    } else {
        let d = sem_repeticao(s.drop_last());
        if d.contains(s.last()) {
            d
        } else {
            d.push(s.last())
        }
    }
}

/// Cada tempo com o `[offset:]` descontado.
pub open spec fn deslocadas(s: Seq<(i64, Seq<char>)>, offset_ms: i64) -> Seq<(i64, Seq<char>)> {
    s.map_values(|p: (i64, Seq<char>)| ((p.0 - offset_ms) as i64, p.1))
}

/// Nenhum tempo vem antes do anterior.
pub open spec fn em_ordem_de_tempo(s: Seq<(i64, Seq<char>)>) -> bool {
    forall|i: int, j: int| 0 <= i <= j < s.len() ==> s[i].0 <= s[j].0
}

/// Se uma entrada é do tempo `at`.
pub open spec fn do_tempo(at: i64) -> spec_fn((i64, Seq<char>)) -> bool {
    |p: (i64, Seq<char>)| p.0 == at
}

/// As entradas com este tempo, na ordem em que aparecem.
pub open spec fn no_tempo(s: Seq<(i64, Seq<char>)>, at: i64) -> Seq<(i64, Seq<char>)> {
    s.filter(do_tempo(at))
}

proof fn lemma_lugar(t: Seq<(i64, Seq<char>)>, at: i64)
    requires
        em_ordem_de_tempo(t),
    ensures
        0 <= lugar(t, at) <= t.len(),
        forall|i: int| 0 <= i < lugar(t, at) ==> t[i].0 <= at,
        forall|i: int| lugar(t, at) <= i < t.len() ==> t[i].0 > at,
    decreases t.len(),
{
    if t.len() > 0 {
        let r = t.drop_first();
        assert(em_ordem_de_tempo(r)) by {
            assert forall|i: int, j: int| 0 <= i <= j < r.len() implies r[i].0 <= r[j].0 by {
                assert(r[i] == t[i + 1] && r[j] == t[j + 1]);
            }
        }
        lemma_lugar(r, at);
        if t[0].0 <= at {
            assert forall|i: int| 0 <= i < lugar(t, at) implies t[i].0 <= at by {
                if i > 0 {
                    assert(t[i] == r[i - 1]);
                }
            }
            assert forall|i: int| lugar(t, at) <= i < t.len() implies t[i].0 > at by {
                assert(t[i] == r[i - 1]);
            }
        } else {
            assert forall|i: int| 0 <= i < t.len() implies t[i].0 > at by {
                assert(t[0].0 <= t[i].0);
            }
        }
    }
}

/// Quem não tem o tempo procurado some do filtro.
proof fn lemma_nada_no_tempo(s: Seq<(i64, Seq<char>)>, at: i64)
    requires
        forall|i: int| 0 <= i < s.len() ==> s[i].0 != at,
    ensures
        no_tempo(s, at) == Seq::<(i64, Seq<char>)>::empty(),
    decreases s.len(),
{
    reveal(Seq::filter);
    if s.len() > 0 {
        let d = s.drop_last();
        assert forall|i: int| 0 <= i < d.len() implies d[i].0 != at by {
            assert(d[i] == s[i]);
        }
        lemma_nada_no_tempo(d, at);
    }
}

/// A ordenação por tempo é uma ordenação estável: o resultado está em ordem
/// de tempo, e as linhas de um mesmo tempo saem na ordem em que entraram
/// (o que, de quebra, diz que nenhuma linha some nem aparece).
pub proof fn law_por_tempo_ordena_estavel(s: Seq<(i64, Seq<char>)>)
    ensures
        em_ordem_de_tempo(por_tempo(s)),
        forall|at: i64| #[trigger] no_tempo(por_tempo(s), at) == no_tempo(s, at),
    decreases s.len(),
{
    if s.len() > 0 {
        let a = s.drop_last();
        let x = s.last();
        law_por_tempo_ordena_estavel(a);
        let t = por_tempo(a);
        lemma_lugar(t, x.0);
        let p = lugar(t, x.0);
        let u = t.insert(p, x);
        assert(u == por_tempo(s));
        assert(u =~= t.take(p) + seq![x] + t.skip(p));
        assert(em_ordem_de_tempo(u)) by {
            assert forall|i: int, j: int| 0 <= i <= j < u.len() implies u[i].0 <= u[j].0 by {
                if i < p {
                    assert(u[i] == t[i]);
                }
                if i > p {
                    assert(u[i] == t[i - 1]);
                }
                if j < p {
                    assert(u[j] == t[j]);
                }
                if j > p {
                    assert(u[j] == t[j - 1]);
                }
            }
        }
        assert(s =~= a.push(x));
        assert forall|at: i64| #[trigger] no_tempo(u, at) == no_tempo(s, at) by {
            let f = do_tempo(at);
            assert(t =~= t.take(p) + t.skip(p));
            Seq::filter_distributes_over_add(t.take(p), t.skip(p), f);
            Seq::filter_distributes_over_add(t.take(p) + seq![x], t.skip(p), f);
            Seq::filter_distributes_over_add(t.take(p), seq![x], f);
            assert forall|i: int| 0 <= i < t.skip(p).len() implies t.skip(p)[i].0 > x.0 by {
                assert(t.skip(p)[i] == t[p + i]);
            }
            reveal(Seq::filter);
            assert(seq![x].drop_last() =~= Seq::<(i64, Seq<char>)>::empty());
            assert(Seq::<(i64, Seq<char>)>::empty().filter(f) =~= Seq::<(i64, Seq<char>)>::empty());
            assert(seq![x].last() == x);
            assert(s.drop_last() == a);
            if at == x.0 {
                lemma_nada_no_tempo(t.skip(p), at);
                assert(no_tempo(u, at) =~= no_tempo(t.take(p), at) + seq![x]);
                assert(no_tempo(t, at) =~= no_tempo(t.take(p), at));
                assert(no_tempo(s, at) == no_tempo(a, at).push(x));
                assert(no_tempo(t, at) == no_tempo(a, at));
                assert(no_tempo(u, at) =~= no_tempo(s, at));
            } else {
                assert(no_tempo(seq![x], at) =~= Seq::<(i64, Seq<char>)>::empty());
                assert(no_tempo(u, at) =~= no_tempo(t.take(p), at) + no_tempo(t.skip(p), at));
                assert(no_tempo(s, at) == no_tempo(a, at));
                assert(no_tempo(t, at) == no_tempo(a, at));
                assert(no_tempo(t, at) == no_tempo(t.take(p) + t.skip(p), at));
                assert(no_tempo(u, at) =~= no_tempo(s, at));
            }
        }
    }
}

impl ParsedLrc {
    /// O fim do parse: desconta o `[offset:]`, põe as linhas em ordem de
    /// tempo e tira cada repetição exata de tempo e texto.
    ///
    /// `[offset:+500]` adianta a letra: por convenção do formato, o valor é
    /// subtraído do timestamp.
    pub fn em_ordem(lines: Vec<LyricLine>, offset_ms: i64) -> (r: ParsedLrc)
        requires
            forall|i: int|
                0 <= i < lines@.len() ==> i64::MIN <= #[trigger] lines@[i].at_ms - offset_ms
                    <= i64::MAX,
        ensures
            r.offset_ms == offset_ms,
            pares(r.lines@) == sem_repeticao(por_tempo(deslocadas(pares(lines@), offset_ms))),
    {
        let ghost entrada = deslocadas(pares(lines@), offset_ms);
        // O offset.
        let mut movidas: Vec<LyricLine> = Vec::new();
        let mut i: usize = 0;
        while i < lines.len()
            invariant
                i <= lines@.len(),
                forall|k: int|
                    0 <= k < lines@.len() ==> i64::MIN <= #[trigger] lines@[k].at_ms - offset_ms
                        <= i64::MAX,
                entrada == deslocadas(pares(lines@), offset_ms),
                pares(movidas@) == entrada.take(i as int),
                movidas@.len() == i,
            decreases lines@.len() - i,
        {
            let l = &lines[i];
            let at_ms = if offset_ms != 0 {
                l.at_ms - offset_ms
            } else {
                l.at_ms
            };
            assert(i64::MIN <= lines@[i as int].at_ms - offset_ms <= i64::MAX);
            let text = l.text.clone();
            movidas.push(LyricLine { at_ms, text });
            assert(entrada[i as int] == ((lines@[i as int].at_ms - offset_ms) as i64, lines@[i as int].text@));
            assert(par(movidas@[i as int]) == entrada[i as int]);
            assert(pares(movidas@) =~= entrada.take(i + 1));
            i = i + 1;
        }
        assert(entrada.take(lines@.len() as int) =~= entrada);
        // Em ordem de tempo, estável.
        let mut ordenadas: Vec<LyricLine> = Vec::new();
        let mut i: usize = 0;
        while i < movidas.len()
            invariant
                i <= movidas@.len(),
                pares(movidas@) == entrada,
                pares(ordenadas@) == por_tempo(entrada.take(i as int)),
                ordenadas@.len() == i,
            decreases movidas@.len() - i,
        {
            let x = &movidas[i];
            let ghost antes = entrada.take(i as int);
            proof {
                law_por_tempo_ordena_estavel(antes);
                lemma_lugar(por_tempo(antes), x.at_ms);
            }
            let mut p: usize = 0;
            while p < ordenadas.len() && ordenadas[p].at_ms <= x.at_ms
                invariant
                    p <= ordenadas@.len(),
                    pares(ordenadas@) == por_tempo(antes),
                    forall|k: int| 0 <= k < p ==> ordenadas@[k].at_ms <= x.at_ms,
                    0 <= lugar(por_tempo(antes), x.at_ms) <= ordenadas@.len(),
                    forall|k: int|
                        0 <= k < lugar(por_tempo(antes), x.at_ms) ==> por_tempo(antes)[k].0
                            <= x.at_ms,
                    forall|k: int|
                        lugar(por_tempo(antes), x.at_ms) <= k < ordenadas@.len() ==> por_tempo(
                            antes,
                        )[k].0 > x.at_ms,
                decreases ordenadas@.len() - p,
            {
                p = p + 1;
            }
            proof {
                let q = lugar(por_tempo(antes), x.at_ms);
                if p < ordenadas@.len() {
                    assert(pares(ordenadas@)[p as int].0 == ordenadas@[p as int].at_ms);
                }
                if (p as int) < q {
                    assert(pares(ordenadas@)[p as int].0 == ordenadas@[p as int].at_ms);
                }
                if q < p {
                    assert(pares(ordenadas@)[q].0 == ordenadas@[q].at_ms);
                }
                assert(p == q);
                let depois = entrada.take(i + 1);
                assert(depois.drop_last() =~= antes);
                assert(depois.last() == par(*x));
            }
            let novo = LyricLine { at_ms: x.at_ms, text: x.text.clone() };
            ordenadas.insert(p, novo);
            assert(pares(ordenadas@) =~= por_tempo(entrada.take(i + 1)));
            i = i + 1;
        }
        assert(entrada.take(movidas@.len() as int) =~= entrada);
        // Sem repetições exatas.
        let mut linhas: Vec<LyricLine> = Vec::new();
        let ghost ordem = por_tempo(entrada);
        let mut i: usize = 0;
        while i < ordenadas.len()
            invariant
                i <= ordenadas@.len(),
                pares(ordenadas@) == ordem,
                pares(linhas@) == sem_repeticao(ordem.take(i as int)),
            decreases ordenadas@.len() - i,
        {
            let x = &ordenadas[i];
            let mut k: usize = 0;
            let mut repetida = false;
            while k < linhas.len()
                invariant_except_break
                    !repetida,
                invariant
                    k <= linhas@.len(),
                    forall|j: int| 0 <= j < k ==> pares(linhas@)[j] != par(*x),
                ensures
                    repetida ==> k < linhas@.len() && pares(linhas@)[k as int] == par(*x),
                    !repetida ==> k == linhas@.len(),
                decreases linhas@.len() - k,
            {
                assert(pares(linhas@)[k as int] == par(linhas@[k as int]));
                if linhas[k].at_ms == x.at_ms && same_text(linhas[k].text.as_str(), x.text.as_str()) {
                    repetida = true;
                    break;
                }
                k = k + 1;
            }
            proof {
                let depois = ordem.take(i + 1);
                assert(depois.drop_last() =~= ordem.take(i as int));
                assert(depois.last() == par(*x));
                if repetida {
                    assert(pares(linhas@).contains(par(*x)));
                } else {
                    assert(!pares(linhas@).contains(par(*x)));
                }
            }
            if !repetida {
                linhas.push(LyricLine { at_ms: x.at_ms, text: x.text.clone() });
            }
            assert(pares(linhas@) =~= sem_repeticao(ordem.take(i + 1)));
            i = i + 1;
        }
        assert(ordem.take(ordenadas@.len() as int) =~= ordem);
        ParsedLrc { lines: linhas, offset_ms }
    }
}

/// Letras ASCII, e só.
pub open spec fn so_letras(s: Seq<char>) -> bool {
    forall|i: int| 0 <= i < s.len() ==> ('a' <= #[trigger] s[i] <= 'z' || 'A' <= s[i] <= 'Z')
}

/// `[chave:valor]`, com a chave só de letras — um timestamp também casa com
/// "algo:algo", e o que distingue é a chave ser alfabética.
pub open spec fn tag_de(s: Seq<char>) -> Option<(Seq<char>, Seq<char>)> {
    if s.len() >= 2 && s[0] == '[' && s.last() == ']' {
        let corpo = s.subrange(1, s.len() - 1);
        match index_of(corpo, ':') {
            Some(i) => {
                let k = trim(corpo.take(i));
                if so_letras(k) {
                    Some((k, trim(corpo.skip(i + 1))))
                } else {
                    None
                }
            },
            None => None,
        }
    } else {
        None
    }
}

fn so_letras_chars(k: &[char]) -> (r: bool)
    ensures
        r == so_letras(k@),
{
    let mut i: usize = 0;
    while i < k.len()
        invariant
            i <= k@.len(),
            forall|j: int| 0 <= j < i ==> ('a' <= #[trigger] k@[j] <= 'z' || 'A' <= k@[j] <= 'Z'),
        decreases k@.len() - i,
    {
        let ch = k[i];
        if !(('a' <= ch && ch <= 'z') || ('A' <= ch && ch <= 'Z')) {
            assert(!('a' <= k@[i as int] <= 'z' || 'A' <= k@[i as int] <= 'Z'));
            return false;
        }
        i = i + 1;
    }
    true
}

/// Tags de metadado: `[ar:…]`, `[offset:+500]`. Devolve (chave, valor).
pub fn parse_tag(s: &str) -> (r: Option<(String, String)>)
    ensures
        r matches Some(kv) ==> tag_de(s@) == Some((kv.0@, kv.1@)),
        r is None ==> tag_de(s@) is None,
{
    let c = chars_of(s);
    let n = c.len();
    if n < 2 || c[0] != '[' || c[n - 1] != ']' {
        return None;
    }
    let corpo = slice_vec(c.as_slice(), 1, n - 1);
    assert(corpo@ =~= s@.subrange(1, s@.len() - 1));
    let i = match index_of_char(corpo.as_slice(), ':', 0) {
        Some(i) => i,
        None => return None,
    };
    proof {
        lemma_index_of_from(corpo@, ':', 0);
    }
    let antes = slice_vec(corpo.as_slice(), 0, i);
    assert(antes@ =~= corpo@.take(i as int));
    let chave = trimmed(antes.as_slice());
    assert(index_of(corpo@, ':') == Some(i as int));
    if !so_letras_chars(chave.as_slice()) {
        return None;
    }
    let valor = trimmed(slice_vec(corpo.as_slice(), i + 1, corpo.len()).as_slice());
    assert(corpo@.subrange(i + 1, corpo@.len() as int) =~= corpo@.skip(i + 1));
    Some((string_of(chave.as_slice()), string_of(valor.as_slice())))
}

/// `s` sem nenhum `c`.
pub open spec fn sem(s: Seq<char>, c: char) -> Seq<char>
    decreases s.len(),
{
    if s.len() == 0 {
        s
    } else if s.last() == c {
        sem(s.drop_last(), c)
    } else {
        sem(s.drop_last(), c).push(s.last())
    }
}

/// O valor de uma tag, se ela for o `[offset:]`: sem os `+`, aparado, como
/// número inteiro. A chave vale em qualquer caixa.
pub open spec fn offset_de(chave: Seq<char>, valor: Seq<char>) -> Option<i64> {
    if ascii_lower_seq(chave) == "offset"@ {
        parse_i64(trim(sem(valor, '+')))
    } else {
        None
    }
}

/// O ajuste que uma tag pede, se ela for o `[offset:]` e o número for lido.
pub fn offset_da_tag(chave: &str, valor: &str) -> (r: Option<i64>)
    ensures
        r == offset_de(chave@, valor@),
{
    let k = ascii_lowercase(chars_of(chave).as_slice());
    let alvo = chars_of("offset");
    if !same_text(string_of(k.as_slice()).as_str(), string_of(alvo.as_slice()).as_str()) {
        return None;
    }
    let v = chars_of(valor);
    let mut limpo: Vec<char> = Vec::new();
    let mut i: usize = 0;
    while i < v.len()
        invariant
            i <= v@.len(),
            limpo@ == sem(v@.take(i as int), '+'),
        decreases v@.len() - i,
    {
        proof {
            assert(v@.take(i + 1).drop_last() =~= v@.take(i as int));
        }
        if v[i] != '+' {
            limpo.push(v[i]);
        }
        i = i + 1;
    }
    assert(v@.take(v@.len() as int) =~= v@);
    parse_i64_chars(trimmed(limpo.as_slice()).as_slice())
}

// ---------------------------------------------------------------------------
// As linhas do arquivo
// ---------------------------------------------------------------------------

/// Lendo as linhas já aparadas na ordem do arquivo: as que têm conteúdo (nem
/// vazias, nem tags), e o ajuste da última tag `[offset:]` que se leu.
pub open spec fn conteudo(ls: Seq<Seq<char>>) -> (Seq<Seq<char>>, i64)
    decreases ls.len(),
{
    if ls.len() == 0 {
        (Seq::empty(), 0)
    } else {
        let (c, o) = conteudo(ls.drop_last());
        let t = trim(ls.last());
        if t.len() == 0 {
            (c, o)
        } else {
            match tag_de(t) {
                Some(kv) => (
                    c,
                    match offset_de(kv.0, kv.1) {
                        Some(n) => n,
                        None => o,
                    },
                ),
                None => (c.push(t), o),
            }
        }
    }
}

/// As linhas de conteúdo do arquivo, aparadas: nem vazias, nem tags.
pub open spec fn lrc_content_lines(lrc: Seq<char>) -> Seq<Seq<char>> {
    conteudo(lines_of(lrc)).0
}

/// O ajuste da última tag `[offset:]` lida, ou zero.
pub open spec fn last_offset(lrc: Seq<char>) -> i64 {
    conteudo(lines_of(lrc)).1
}

pub open spec fn textos(v: Seq<String>) -> Seq<Seq<char>> {
    v.map_values(|l: String| l@)
}

/// As linhas de conteúdo, e o `[offset:]` que vale para o arquivo todo.
pub fn content_lines(lrc: &str) -> (r: (Vec<String>, i64))
    ensures
        textos(r.0@) == lrc_content_lines(lrc@),
        r.1 == last_offset(lrc@),
{
    let s = chars_of(lrc);
    let mut out: Vec<String> = Vec::new();
    let mut offset: i64 = 0;
    let ghost mut feitas: Seq<Seq<char>> = Seq::empty();
    let mut pos: usize = 0;
    assert(textos(out@) =~= Seq::<Seq<char>>::empty());
    while pos < s.len()
        invariant
            pos <= s@.len(),
            s@ == lrc@,
            lines_of(s@) == feitas + lines_from(s@, pos as int),
            (textos(out@), offset) == conteudo(feitas),
        decreases s@.len() - pos,
    {
        proof {
            lemma_index_of_from(s@, '\n', pos as int);
        }
        let (end, next) = match index_of_char(s.as_slice(), '\n', pos) {
            Some(k) => (k, k + 1),
            None => (s.len(), s.len()),
        };
        let mut line = slice_vec(s.as_slice(), pos, end);
        if end < s.len() && line.len() > 0 && line[line.len() - 1] == '\r' {
            line.pop();
        }
        let ghost antes = feitas;
        proof {
            assert(line@ == lines_from(s@, pos as int)[0]);
            assert(lines_from(s@, pos as int) =~= seq![line@] + lines_from(s@, next as int)) by {
                if next == s@.len() {
                    assert(lines_from(s@, next as int) =~= Seq::<Seq<char>>::empty());
                }
            }
            feitas = feitas.push(line@);
            assert(lines_of(s@) =~= feitas + lines_from(s@, next as int));
            assert(feitas.drop_last() =~= antes);
        }
        let t = trimmed(line.as_slice());
        if t.len() > 0 {
            let texto = string_of(t.as_slice());
            match parse_tag(texto.as_str()) {
                Some((chave, valor)) => {
                    if let Some(n) = offset_da_tag(chave.as_str(), valor.as_str()) {
                        offset = n;
                    }
                },
                None => {
                    out.push(texto);
                    assert(textos(out@) =~= conteudo(antes).0.push(t@));
                },
            }
        }
        pos = next;
    }
    proof {
        assert(lines_from(s@, pos as int) =~= Seq::<Seq<char>>::empty());
        assert(feitas =~= lines_of(s@));
    }
    (out, offset)
}

// ---------------------------------------------------------------------------
// Os timestamps de uma linha
// ---------------------------------------------------------------------------

/// As vírgulas trocadas por pontos: `12,34` é escrito assim por quem usa a
/// vírgula decimal.
pub open spec fn virgula_em_ponto(s: Seq<char>) -> Seq<char> {
    s.map_values(|c: char| if c == ',' { '.' } else { c })
}

/// O timestamp `[mm:ss.xx]` que começa no caractere `pos`: os minutos, o
/// texto dos segundos (aparado, com vírgula virando ponto) e onde o colchete
/// fechou, mais um.
pub open spec fn timestamp_parts_spec(s: Seq<char>, pos: int) -> Option<(i64, Seq<char>, int)> {
    if 0 <= pos < s.len() && s[pos] == '[' {
        match index_of_from(s, ']', pos) {
            Some(e) => {
                let corpo = s.subrange(pos + 1, e);
                match index_of(corpo, ':') {
                    Some(k) => match parse_i64(trim(corpo.take(k))) {
                        Some(m) => Some((m, virgula_em_ponto(trim(corpo.skip(k + 1))), e + 1)),
                        None => None,
                    },
                    None => None,
                }
            },
            None => None,
        }
    } else {
        None
    }
}

/// Extrai um timestamp a partir do caractere `pos`, se houver: os minutos, o
/// texto dos segundos, e a posição logo depois do `]`. Ler os segundos como
/// número fica com quem chama.
pub fn timestamp_parts(s: &str, pos: usize) -> (r: Option<(i64, String, usize)>)
    ensures
        match r {
            Some((m, seg, prox)) => timestamp_parts_spec(s@, pos as int) == Some(
                (m, seg@, prox as int),
            ),
            None => timestamp_parts_spec(s@, pos as int) is None,
        },
        r matches Some(x) ==> pos < x.2 <= s@.len(),
{
    let c = chars_of(s);
    if pos >= c.len() || c[pos] != '[' {
        return None;
    }
    proof {
        lemma_index_of_from(c@, ']', pos as int);
    }
    let e = match index_of_char(c.as_slice(), ']', pos) {
        Some(e) => e,
        None => return None,
    };
    let corpo = slice_vec(c.as_slice(), pos + 1, e);
    proof {
        lemma_index_of_from(corpo@, ':', 0);
    }
    let k = match index_of_char(corpo.as_slice(), ':', 0) {
        Some(k) => k,
        None => return None,
    };
    assert(index_of(corpo@, ':') == Some(k as int));
    let antes = slice_vec(corpo.as_slice(), 0, k);
    assert(antes@ =~= corpo@.take(k as int));
    let m = match parse_i64_chars(trimmed(antes.as_slice()).as_slice()) {
        Some(m) => m,
        None => return None,
    };
    let depois = slice_vec(corpo.as_slice(), k + 1, corpo.len());
    assert(depois@ =~= corpo@.skip(k + 1));
    let seg = trimmed(depois.as_slice());
    let mut trocado: Vec<char> = Vec::new();
    let mut i: usize = 0;
    while i < seg.len()
        invariant
            i <= seg@.len(),
            trocado@ == virgula_em_ponto(seg@.take(i as int)),
        decreases seg@.len() - i,
    {
        let ch = if seg[i] == ',' {
            '.'
        } else {
            seg[i]
        };
        trocado.push(ch);
        assert(trocado@ =~= virgula_em_ponto(seg@.take(i + 1)));
        i = i + 1;
    }
    assert(seg@.take(seg@.len() as int) =~= seg@);
    Some((m, string_of(trocado.as_slice()), e + 1))
}

/// O tempo de um timestamp, em milissegundos: os minutos e os segundos já
/// em milissegundos. `None` quando a soma não cabe em 64 bits.
pub fn instante(minutos: i64, segundos_ms: i64) -> (r: Option<i64>)
    ensures
        match r {
            Some(t) => t == minutos * 60000 + segundos_ms && i64::MIN <= minutos * 60000 <= i64::MAX,
            None => !(i64::MIN <= minutos * 60000 + segundos_ms <= i64::MAX && i64::MIN
                <= minutos * 60000 <= i64::MAX),
        },
{
    match minutos.checked_mul(60000) {
        Some(a) => match a.checked_add(segundos_ms) {
            Some(t) => Some(t),
            None => None,
        },
        None => None,
    }
}

/// Uma ocorrência para cada tempo lido no começo da linha, todas com o texto
/// que vem depois do último timestamp, aparado — vazio inclusive: é a linha
/// que apaga a tela no intervalo.
pub fn entries_of_line(times: &[i64], line: &str, pos: usize) -> (r: Vec<LyricLine>)
    requires
        pos <= line@.len(),
    ensures
        pares(r@) == times@.map_values(|t: i64| (t, trim(line@.skip(pos as int)))),
{
    let c = chars_of(line);
    let resto = slice_vec(c.as_slice(), pos, c.len());
    assert(resto@ =~= line@.skip(pos as int));
    let texto = trimmed(resto.as_slice());
    let ghost alvo = times@.map_values(|t: i64| (t, trim(line@.skip(pos as int))));
    let mut out: Vec<LyricLine> = Vec::new();
    let mut i: usize = 0;
    while i < times.len()
        invariant
            i <= times@.len(),
            texto@ == trim(line@.skip(pos as int)),
            alvo == times@.map_values(|t: i64| (t, trim(line@.skip(pos as int)))),
            pares(out@) == alvo.take(i as int),
            out@.len() == i,
        decreases times@.len() - i,
    {
        out.push(LyricLine { at_ms: times[i], text: string_of(texto.as_slice()) });
        assert(pares(out@) =~= alvo.take(i + 1));
        i = i + 1;
    }
    assert(alvo.take(times@.len() as int) =~= alvo);
    out
}

/// Um timestamp do começo de uma linha como os contratos o veem: minutos, o
/// texto dos segundos, e onde o colchete fechou.
pub type Carimbo = (i64, Seq<char>, int);

/// Os timestamps seguidos a partir de `pos`, até o primeiro que não é um.
pub open spec fn carimbos_spec(s: Seq<char>, pos: int) -> Seq<Carimbo>
    decreases s.len() - pos,
{
    match timestamp_parts_spec(s, pos) {
        Some((m, seg, prox)) => if pos < prox <= s.len() {
            seq![(m, seg, prox)] + carimbos_spec(s, prox)
        } else {
            Seq::empty()
        },
        None => Seq::empty(),
    }
}

pub open spec fn carimbos_vista(v: Seq<(i64, String, usize)>) -> Seq<Carimbo> {
    v.map_values(|c: (i64, String, usize)| (c.0, c.1@, c.2 as int))
}

/// Os timestamps que abrem a linha: minutos, o texto dos segundos, e onde o
/// colchete fechou.
pub fn carimbos(raw: &str) -> (r: Vec<(i64, String, usize)>)
    ensures
        carimbos_vista(r@) == carimbos_spec(raw@, 0),
        forall|k: int| 0 <= k < r@.len() ==> #[trigger] r@[k].2 <= raw@.len(),
{
    let mut r: Vec<(i64, String, usize)> = Vec::new();
    let mut pos: usize = 0;
    loop
        invariant
            pos <= raw@.len(),
            carimbos_vista(r@) + carimbos_spec(raw@, pos as int) == carimbos_spec(raw@, 0),
            forall|k: int| 0 <= k < r@.len() ==> #[trigger] r@[k].2 <= raw@.len(),
        decreases raw@.len() - pos,
    {
        match timestamp_parts(raw, pos) {
            Some((m, seg, prox)) => {
                let ghost antes = carimbos_vista(r@);
                let ghost c: Carimbo = (m, seg@, prox as int);
                assert(carimbos_spec(raw@, pos as int) == seq![c] + carimbos_spec(raw@, prox as int));
                r.push((m, seg, prox));
                assert(carimbos_vista(r@) =~= antes.push(c));
                assert(antes.push(c) + carimbos_spec(raw@, prox as int) =~= antes + (seq![c]
                    + carimbos_spec(raw@, prox as int)));
                pos = prox;
            },
            None => {
                assert(carimbos_spec(raw@, pos as int) =~= Seq::<Carimbo>::empty());
                assert(carimbos_vista(r@) + Seq::<Carimbo>::empty() =~= carimbos_vista(r@));
                return r;
            },
        }
    }
}

/// Quantos timestamps, a partir do `k`-ésimo, tiveram os segundos lidos
/// antes do primeiro que não teve: o fim da contagem.
pub open spec fn corte(n: int, m: Seq<Option<i64>>, k: int) -> int
    decreases n - k,
{
    if 0 <= k < n && k < m.len() && m[k] is Some {
        corte(n, m, k + 1)
    } else {
        k
    }
}

/// Quantos timestamps do começo da linha valem: os seguidos cujos segundos
/// foram lidos.
pub open spec fn aceitos(cs: Seq<Carimbo>, m: Seq<Option<i64>>) -> int {
    corte(cs.len() as int, m, 0)
}

pub open spec fn cabe(x: int) -> bool {
    i64::MIN <= x <= i64::MAX
}

/// O tempo do `k`-ésimo timestamp, em milissegundos.
pub open spec fn tempo(cs: Seq<Carimbo>, m: Seq<Option<i64>>, k: int) -> int {
    cs[k].0 * 60000 + m[k]->0
}

/// Algum dos tempos do `k`-ésimo ao `n`-ésimo (exclusive) não cabe em 64
/// bits, ou os minutos já não cabem.
pub open spec fn estoura_desde(cs: Seq<Carimbo>, m: Seq<Option<i64>>, k: int, n: int) -> bool
    decreases n - k,
{
    if 0 <= k < n {
        !(cabe(cs[k].0 * 60000) && cabe(tempo(cs, m, k))) || estoura_desde(cs, m, k + 1, n)
    } else {
        false
    }
}

/// Algum tempo da linha não cabe em 64 bits.
pub open spec fn linha_estoura(cs: Seq<Carimbo>, m: Seq<Option<i64>>) -> bool {
    estoura_desde(cs, m, 0, aceitos(cs, m))
}

/// As ocorrências de uma linha: uma por timestamp aceito, todas com o texto
/// depois do último deles, aparado.
pub open spec fn linha_entradas(linha: Seq<char>, cs: Seq<Carimbo>, m: Seq<Option<i64>>) -> Seq<(i64, Seq<char>)> {
    let n = aceitos(cs, m);
    if n <= 0 {
        Seq::empty()
    } else {
        Seq::new(n as nat, |k: int| (tempo(cs, m, k) as i64, trim(linha.skip(cs[n - 1].2))))
    }
}

/// Os segundos lidos da `j`-ésima linha; nenhum quando faltam.
pub open spec fn ms_da_linha(ms: Seq<Seq<Option<i64>>>, j: int) -> Seq<Option<i64>> {
    if 0 <= j < ms.len() {
        ms[j]
    } else {
        Seq::empty()
    }
}

pub open spec fn entradas_do_arquivo(linhas: Seq<Seq<char>>, ms: Seq<Seq<Option<i64>>>) -> Seq<(i64, Seq<char>)>
    decreases linhas.len(),
{
    if linhas.len() == 0 {
        Seq::empty()
    } else {
        let j = linhas.len() - 1;
        entradas_do_arquivo(linhas.drop_last(), ms) + linha_entradas(
            linhas[j],
            carimbos_spec(linhas[j], 0),
            ms_da_linha(ms, j),
        )
    }
}

pub open spec fn arquivo_estoura(linhas: Seq<Seq<char>>, ms: Seq<Seq<Option<i64>>>) -> bool {
    exists|j: int| 0 <= j < linhas.len() && #[trigger] linha_estoura(carimbos_spec(linhas[j], 0), ms_da_linha(ms, j))
}

pub open spec fn offset_estoura(e: Seq<(i64, Seq<char>)>, off: i64) -> bool {
    exists|i: int| 0 <= i < e.len() && !cabe(#[trigger] e[i].0 - off)
}

/// O arquivo lido, dados os segundos de cada timestamp de cada linha: as
/// linhas em ordem de tempo e sem repetição exata, e o `[offset:]`; nada
/// quando um tempo, ou um tempo menos o offset, não cabe em 64 bits.
pub open spec fn parse_lido_spec(lrc: Seq<char>, ms: Seq<Seq<Option<i64>>>) -> Option<(Seq<(i64, Seq<char>)>, i64)> {
    let linhas = lrc_content_lines(lrc);
    let off = last_offset(lrc);
    if arquivo_estoura(linhas, ms) {
        None
    } else {
        let e = entradas_do_arquivo(linhas, ms);
        if offset_estoura(e, off) {
            None
        } else {
            Some((sem_repeticao(por_tempo(deslocadas(e, off))), off))
        }
    }
}

pub open spec fn ms_vista(ms: Seq<Vec<Option<i64>>>) -> Seq<Seq<Option<i64>>> {
    ms.map_values(|v: Vec<Option<i64>>| v@)
}

/// As ocorrências de uma linha, dados os segundos lidos de cada um dos seus
/// timestamps; nada quando um tempo não cabe em 64 bits.
pub fn linha_lida(raw: &str, cs: &[(i64, String, usize)], m: &[Option<i64>]) -> (r: Option<Vec<LyricLine>>)
    requires
        carimbos_vista(cs@) == carimbos_spec(raw@, 0),
        forall|k: int| 0 <= k < cs@.len() ==> #[trigger] cs@[k].2 <= raw@.len(),
    ensures
        match r {
            Some(v) => !linha_estoura(carimbos_spec(raw@, 0), m@) && pares(v@) == linha_entradas(
                raw@,
                carimbos_spec(raw@, 0),
                m@,
            ),
            None => linha_estoura(carimbos_spec(raw@, 0), m@),
        },
{
    let ghost csv = carimbos_spec(raw@, 0);
    let mut n: usize = 0;
    while n < cs.len() && n < m.len() && m[n].is_some()
        invariant
            n <= cs@.len(),
            n <= m@.len(),
            csv.len() == cs@.len(),
            aceitos(csv, m@) == corte(cs@.len() as int, m@, n as int),
            forall|k: int| 0 <= k < n ==> k < m@.len() && #[trigger] m@[k] is Some,
        decreases cs@.len() - n,
    {
        n = n + 1;
    }
    assert(aceitos(csv, m@) == n);
    if n == 0 {
        let vazia: Vec<LyricLine> = Vec::new();
        assert(linha_entradas(raw@, csv, m@) =~= Seq::<(i64, Seq<char>)>::empty());
        assert(pares(vazia@) =~= Seq::<(i64, Seq<char>)>::empty());
        return Some(vazia);
    }
    let mut tempos: Vec<i64> = Vec::new();
    let mut k: usize = 0;
    while k < n
        invariant
            k <= n,
            n <= cs@.len(),
            n <= m@.len(),
            n == aceitos(csv, m@),
            csv == carimbos_vista(cs@),
            csv == carimbos_spec(raw@, 0),
            forall|q: int| 0 <= q < n ==> q < m@.len() && #[trigger] m@[q] is Some,
            tempos@.len() == k,
            forall|q: int| 0 <= q < k ==> tempos@[q] as int == tempo(csv, m@, q),
            estoura_desde(csv, m@, 0, n as int) == estoura_desde(csv, m@, k as int, n as int),
        decreases n - k,
    {
        let ms_k = match m[k] {
            Some(x) => x,
            None => 0,
        };
        assert(csv[k as int].0 == cs@[k as int].0);
        assert(m@[k as int] is Some);
        assert(m@[k as int] == Some(ms_k));
        match instante(cs[k].0, ms_k) {
            Some(t) => {
                assert(t == tempo(csv, m@, k as int));
                assert(cabe(csv[k as int].0 * 60000));
                tempos.push(t);
            },
            None => {
                assert(!(cabe(csv[k as int].0 * 60000) && cabe(tempo(csv, m@, k as int))));
                assert(estoura_desde(csv, m@, k as int, n as int));
                return None;
            },
        }
        k = k + 1;
    }
    assert(!linha_estoura(csv, m@));
    let pos = cs[n - 1].2;
    assert(csv[n - 1].2 == pos as int);
    let v = entries_of_line(tempos.as_slice(), raw, pos);
    assert(tempos@.map_values(|t: i64| (t, trim(raw@.skip(pos as int)))) =~= linha_entradas(raw@, csv, m@));
    Some(v)
}

/// Os textos dos segundos de cada timestamp de cada linha de conteúdo, na
/// ordem: o que a leitura dos segundos precisa receber.
pub fn segundos_do_arquivo(lrc: &str) -> (r: Vec<Vec<String>>)
    ensures
        r@.len() == lrc_content_lines(lrc@).len(),
        forall|j: int| 0 <= j < r@.len() ==> #[trigger] textos(r@[j]@) == carimbos_spec(lrc_content_lines(lrc@)[j], 0).map_values(
            |c: Carimbo| c.1,
        ),
{
    let (linhas, _off) = content_lines(lrc);
    let mut r: Vec<Vec<String>> = Vec::new();
    let mut j: usize = 0;
    while j < linhas.len()
        invariant
            j <= linhas@.len(),
            textos(linhas@) == lrc_content_lines(lrc@),
            r@.len() == j,
            forall|q: int| 0 <= q < j ==> #[trigger] textos(r@[q]@) == carimbos_spec(lrc_content_lines(lrc@)[q], 0).map_values(
                |c: Carimbo| c.1,
            ),
        decreases linhas@.len() - j,
    {
        let cs = carimbos(linhas[j].as_str());
        assert(textos(linhas@)[j as int] == linhas@[j as int]@);
        let mut segs: Vec<String> = Vec::new();
        let mut k: usize = 0;
        while k < cs.len()
            invariant
                k <= cs@.len(),
                segs@.len() == k,
                forall|q: int| 0 <= q < k ==> #[trigger] segs@[q]@ == cs@[q].1@,
            decreases cs@.len() - k,
        {
            segs.push(cs[k].1.clone());
            k = k + 1;
        }
        proof {
            let alvo = carimbos_spec(lrc_content_lines(lrc@)[j as int], 0).map_values(|c: Carimbo| c.1);
            assert forall|q: int| 0 <= q < segs@.len() implies #[trigger] textos(segs@)[q] == alvo[q] by {
                assert(carimbos_vista(cs@)[q] == (cs@[q].0, cs@[q].1@, cs@[q].2 as int));
            }
            assert(textos(segs@) =~= alvo);
        }
        r.push(segs);
        j = j + 1;
    }
    r
}

/// O leitor de LRC inteiro, dados os segundos de cada timestamp de cada
/// linha de conteúdo (a leitura deles é de fora): `None` quando um tempo, ou
/// um tempo menos o `[offset:]`, não cabe em 64 bits.
pub fn parse_lido(lrc: &str, ms: &[Vec<Option<i64>>]) -> (r: Option<ParsedLrc>)
    ensures
        match r {
            Some(p) => parse_lido_spec(lrc@, ms_vista(ms@)) == Some((pares(p.lines@), p.offset_ms)),
            None => parse_lido_spec(lrc@, ms_vista(ms@)) is None,
        },
{
    let ghost msv = ms_vista(ms@);
    let (linhas, off) = content_lines(lrc);
    let ghost lv = lrc_content_lines(lrc@);
    let mut lines: Vec<LyricLine> = Vec::new();
    let vazio: Vec<Option<i64>> = Vec::new();
    let mut j: usize = 0;
    while j < linhas.len()
        invariant
            j <= linhas@.len(),
            textos(linhas@) == lv,
            lv == lrc_content_lines(lrc@),
            msv == ms_vista(ms@),
            vazio@ == Seq::<Option<i64>>::empty(),
            pares(lines@) == entradas_do_arquivo(lv.take(j as int), msv),
            forall|q: int| 0 <= q < j ==> !#[trigger] linha_estoura(carimbos_spec(lv[q], 0), ms_da_linha(msv, q)),
        decreases linhas@.len() - j,
    {
        assert(lv[j as int] == linhas@[j as int]@);
        let raw = linhas[j].as_str();
        let cs = carimbos(raw);
        let m: &[Option<i64>] = if j < ms.len() {
            ms[j].as_slice()
        } else {
            vazio.as_slice()
        };
        assert(m@ == ms_da_linha(msv, j as int));
        match linha_lida(raw, cs.as_slice(), m) {
            Some(v) => {
                let ghost antes = pares(lines@);
                let mut k: usize = 0;
                while k < v.len()
                    invariant
                        k <= v@.len(),
                        lines@.len() == antes.len() + k,
                        pares(lines@) == antes + pares(v@).take(k as int),
                    decreases v@.len() - k,
                {
                    let ghost velhas = lines@;
                    lines.push(LyricLine { at_ms: v[k].at_ms, text: v[k].text.clone() });
                    proof {
                        assert(lines@ == velhas.push(lines@[lines@.len() - 1]));
                        assert(par(lines@[lines@.len() - 1]) == pares(v@)[k as int]);
                        assert forall|q: int| 0 <= q < lines@.len() implies #[trigger] pares(lines@)[q] == (antes
                            + pares(v@).take(k + 1))[q] by {
                            if q < lines@.len() - 1 {
                                assert(lines@[q] == velhas[q]);
                                assert(pares(velhas)[q] == (antes + pares(v@).take(k as int))[q]);
                            }
                        }
                    }
                    assert(pares(lines@) =~= antes + pares(v@).take(k + 1));
                    k = k + 1;
                }
                assert(pares(v@).take(v@.len() as int) =~= pares(v@));
                assert(lv.take(j + 1).drop_last() =~= lv.take(j as int));
                assert(lv.take(j + 1)[j as int] == lv[j as int]);
            },
            None => {
                assert(linha_estoura(carimbos_spec(lv[j as int], 0), ms_da_linha(msv, j as int)));
                assert(arquivo_estoura(lv, msv));
                return None;
            },
        }
        j = j + 1;
    }
    assert(lv.take(linhas@.len() as int) =~= lv);
    assert(!arquivo_estoura(lv, msv));
    let ghost e = entradas_do_arquivo(lv, msv);
    let mut i: usize = 0;
    while i < lines.len()
        invariant
            i <= lines@.len(),
            pares(lines@) == e,
            e == entradas_do_arquivo(lrc_content_lines(lrc@), ms_vista(ms@)),
            off == last_offset(lrc@),
            !arquivo_estoura(lrc_content_lines(lrc@), ms_vista(ms@)),
            forall|q: int| 0 <= q < i ==> i64::MIN <= #[trigger] lines@[q].at_ms - off <= i64::MAX,
        decreases lines@.len() - i,
    {
        assert(e[i as int] == par(lines@[i as int]));
        if lines[i].at_ms.checked_sub(off).is_none() {
            assert(!cabe(e[i as int].0 - off));
            assert(offset_estoura(e, off));
            return None;
        }
        i = i + 1;
    }
    assert forall|q: int| 0 <= q < e.len() implies cabe(#[trigger] e[q].0 - off) by {
        assert(e[q] == par(lines@[q]));
    }
    Some(ParsedLrc::em_ordem(lines, off))
}

} // verus!
