//! Qual idioma a interface fala.
//!
//! O backend entra nisto por um motivo só: **o frontend não tem como saber o
//! idioma do sistema**. Daqui sai só a resposta a "qual idioma", e os erros do
//! backend viajam como código, não como frase pronta — ver `UiError`.

use vstd::prelude::*;

use crate::webview::lyrics::{lyrics_error_args, lyrics_error_code, ui_error_of, LyricsError};
use crate::text::{
    lemma_text_lt_irreflexive, lemma_text_lt_total, lemma_text_lt_transitive, less_than, text_lt,
    chars_of, extend, index_of, index_of_char, lowercase, same_text, slice_vec, string_of,
    unicode_lowercase,
};

verus! {

// ---------------------------------------------------------------------------
// Erro para a tela
// ---------------------------------------------------------------------------

/// Erro destinado à tela.
///
/// Viaja como **código estável mais parâmetros**, nunca como frase pronta: quem
/// sabe o idioma da vez é a UI, e ela pode trocar de idioma sem o backend saber.
///
/// Os parâmetros ficam em ordem de chave, sem chave repetida, como num mapa
/// ordenado: a mesma chave dada de novo troca o valor.
#[derive(Debug)]
pub struct UiError {
    /// Chave estável, casada no `traduzirErro` do frontend.
    code: &'static str,
    args: Vec<(String, String)>,
}

/// Os parâmetros como pares de textos.
pub open spec fn pairs_view(v: Seq<(String, String)>) -> Seq<(Seq<char>, Seq<char>)> {
    v.map_values(|p: (String, String)| (p.0@, p.1@))
}

/// Chaves em ordem estrita: nenhuma repetida.
pub open spec fn keys_increasing(s: Seq<(Seq<char>, Seq<char>)>) -> bool {
    forall|i: int, j: int| 0 <= i < j < s.len() ==> text_lt(s[i].0, s[j].0)
}

/// Os parâmetros vistos como mapa.
pub open spec fn as_map(s: Seq<(Seq<char>, Seq<char>)>) -> Map<Seq<char>, Seq<char>>
    decreases s.len(),
{
    if s.len() == 0 {
        Map::empty()
    } else {
        as_map(s.drop_last()).insert(s.last().0, s.last().1)
    }
}

impl UiError {
    /// A chave estável do erro.
    pub closed spec fn code_view(&self) -> Seq<char> {
        self.code@
    }

    /// A chave estável, casada no `traduzirErro` do frontend.
    pub fn code(&self) -> (r: &'static str)
        ensures
            r@ == self.code_view(),
    {
        self.code
    }

    /// Os parâmetros, em ordem de chave.
    pub closed spec fn pairs(&self) -> Seq<(Seq<char>, Seq<char>)> {
        pairs_view(self.args@)
    }

    #[verifier::type_invariant]
    spec fn ordered(self) -> bool {
        keys_increasing(pairs_view(self.args@))
    }

    pub fn new(code: &'static str) -> (e: Self)
        ensures
            e.code_view() == code@,
            e.pairs().len() == 0,
    {
        Self { code, args: Vec::new() }
    }

    /// Os parâmetros, em ordem de chave.
    pub fn args(&self) -> (r: &Vec<(String, String)>)
        ensures
            pairs_view(r@) == self.pairs(),
            keys_increasing(self.pairs()),
    {
        proof {
            use_type_invariant(self);
        }
        &self.args
    }

    /// Acrescenta um parâmetro que a frase traduzida vai interpolar. A mesma
    /// chave troca o valor que já estava lá.
    pub fn arg(self, chave: &str, valor: &str) -> (e: Self)
        ensures
            e.code_view() == self.code_view(),
            keys_increasing(e.pairs()),
            as_map(e.pairs()) == as_map(self.pairs()).insert(chave@, valor@),
            forall|k: Seq<char>| as_map(e.pairs()).contains_key(k) <==> (k == chave@ || as_map(
                self.pairs(),
            ).contains_key(k)),
    {
        proof {
            use_type_invariant(&self);
        }
        let UiError { code, mut args } = self;
        let key = chars_of(chave);
        let ghost before = pairs_view(args@);
        let mut i: usize = 0;
        while i < args.len() && less_than(chars_of(args[i].0.as_str()).as_slice(), key.as_slice())
            invariant
                i <= args@.len(),
                pairs_view(args@) == before,
                keys_increasing(before),
                key@ == chave@,
                forall|j: int| 0 <= j < i ==> text_lt(#[trigger] before[j].0, key@),
            decreases args@.len() - i,
        {
            i = i + 1;
        }
        let ghost pos = i as int;
        proof {
            lemma_as_map_keys(before);
        }
        if i < args.len() && same_text(args[i].0.as_str(), chave) {
            args.set(i, (String::from_str(chave), String::from_str(valor)));
            proof {
                let after = pairs_view(args@);
                assert(after =~= before.update(pos, (chave@, valor@)));
                lemma_replace(before, pos, chave@, valor@);
            }
        } else {
            args.insert(i, (String::from_str(chave), String::from_str(valor)));
            proof {
                let after = pairs_view(args@);
                assert(after =~= before.insert(pos, (chave@, valor@)));
                if i < args@.len() - 1 {
                    lemma_text_lt_total(before[pos].0, key@);
                }
                lemma_put_in(before, pos, chave@, valor@);
            }
        }
        proof {
            lemma_as_map_keys(pairs_view(args@));
        }
        UiError { code, args }
    }

    /// Para o `stderr` e para os testes: `código (k=v, k=v)`. Não é o que o
    /// usuário lê.
    pub fn to_text(&self) -> (r: String)
        ensures
            r@ == display(self.code_view(), self.pairs()),
    {
        let mut out = chars_of(self.code);
        if self.args.len() > 0 {
            out.push(' ');
            out.push('(');
            let mut i: usize = 0;
            while i < self.args.len()
                invariant
                    i <= self.args@.len(),
                    self.args@.len() > 0,
                    out@ == self.code@ + seq![' ', '('] + joined(pairs_view(self.args@).take(i as int)),
                decreases self.args@.len() - i,
            {
                if i > 0 {
                    out.push(',');
                    out.push(' ');
                }
                extend(&mut out, chars_of(self.args[i].0.as_str()).as_slice());
                out.push('=');
                extend(&mut out, chars_of(self.args[i].1.as_str()).as_slice());
                proof {
                    let p = pairs_view(self.args@);
                    assert(p.take(i + 1).drop_last() =~= p.take(i as int));
                    assert(p.take(i + 1).last() == p[i as int]);
                }
                i = i + 1;
            }
            out.push(')');
            assert(pairs_view(self.args@).take(self.args@.len() as int) =~= pairs_view(self.args@));
        }
        string_of(out.as_slice())
    }
}

impl Clone for UiError {
    fn clone(&self) -> (r: Self)
        ensures
            r.code_view() == self.code_view(),
            r.pairs() == self.pairs(),
    {
        proof {
            use_type_invariant(self);
        }
        let mut args: Vec<(String, String)> = Vec::new();
        let mut i: usize = 0;
        while i < self.args.len()
            invariant
                i <= self.args@.len(),
                args@.len() == i,
                forall|j: int|
                    0 <= j < i ==> (#[trigger] args@[j]).0@ == self.args@[j].0@ && args@[j].1@
                        == self.args@[j].1@,
            decreases self.args@.len() - i,
        {
            let k = self.args[i].0.clone();
            let v = self.args[i].1.clone();
            args.push((k, v));
            i = i + 1;
        }
        assert(pairs_view(args@) =~= pairs_view(self.args@));
        UiError { code: self.code, args }
    }
}

/// `k=v, k=v`.
pub open spec fn joined(s: Seq<(Seq<char>, Seq<char>)>) -> Seq<char>
    decreases s.len(),
{
    if s.len() == 0 {
        Seq::empty()
    } else if s.len() == 1 {
        s[0].0 + seq!['='] + s[0].1
    } else {
        joined(s.drop_last()) + seq![',', ' '] + s.last().0 + seq!['='] + s.last().1
    }
}

/// `código`, ou `código (k=v, k=v)` quando há parâmetros.
pub open spec fn display(code: Seq<char>, pairs: Seq<(Seq<char>, Seq<char>)>) -> Seq<char> {
    if pairs.len() == 0 {
        code
    } else {
        code + seq![' ', '('] + joined(pairs) + seq![')']
    }
}

proof fn lemma_as_map_keys(s: Seq<(Seq<char>, Seq<char>)>)
    ensures
        forall|k: Seq<char>| #[trigger]
            as_map(s).contains_key(k) <==> exists|i: int| 0 <= i < s.len() && s[i].0 == k,
        forall|i: int|
            0 <= i < s.len() && (forall|j: int| i < j < s.len() ==> s[j].0 != s[i].0) ==> as_map(
                s,
            )[s[i].0] == s[i].1,
    decreases s.len(),
{
    if s.len() > 0 {
        let d = s.drop_last();
        lemma_as_map_keys(d);
        assert forall|k: Seq<char>| #[trigger] as_map(s).contains_key(k) implies exists|i: int|
            0 <= i < s.len() && s[i].0 == k by {
            if k == s.last().0 {
                assert(s[s.len() - 1].0 == k);
            } else {
                assert(as_map(d).contains_key(k));
                let i = choose|i: int| 0 <= i < d.len() && d[i].0 == k;
                assert(d[i] == s[i]);
                assert(s[i].0 == k);
            }
        }
        assert forall|k: Seq<char>|
            (exists|i: int| 0 <= i < s.len() && s[i].0 == k) implies #[trigger] as_map(
            s,
        ).contains_key(k) by {
            let i = choose|i: int| 0 <= i < s.len() && s[i].0 == k;
            if i < s.len() - 1 {
                assert(d[i] == s[i]);
                assert(d[i].0 == k);
                assert(as_map(d).contains_key(k));
            }
        }
        assert forall|i: int|
            0 <= i < s.len() && (forall|j: int| i < j < s.len() ==> s[j].0 != s[i].0) implies as_map(
                s,
            )[s[i].0] == s[i].1 by {
            if i < s.len() - 1 {
                assert(d[i] == s[i]);
                assert forall|j: int| i < j < d.len() implies d[j].0 != d[i].0 by {
                    assert(d[j] == s[j]);
                }
            }
        }
    }
}

proof fn lemma_unique_last(s: Seq<(Seq<char>, Seq<char>)>, i: int)
    requires
        keys_increasing(s),
        0 <= i < s.len(),
    ensures
        forall|j: int| i < j < s.len() ==> s[j].0 != s[i].0,
{
    assert forall|j: int| i < j < s.len() implies s[j].0 != s[i].0 by {
        if s[j].0 == s[i].0 {
            lemma_text_lt_irreflexive(s[i].0);
        }
    }
}

/// In a list with no repeated key, the map holds each pair's value.
proof fn lemma_map_at(s: Seq<(Seq<char>, Seq<char>)>)
    requires
        keys_increasing(s),
    ensures
        forall|i: int| 0 <= i < s.len() ==> #[trigger] as_map(s)[s[i].0] == s[i].1,
        forall|k: Seq<char>| #[trigger]
            as_map(s).contains_key(k) <==> exists|i: int| 0 <= i < s.len() && s[i].0 == k,
{
    lemma_as_map_keys(s);
    assert forall|i: int| 0 <= i < s.len() implies #[trigger] as_map(s)[s[i].0] == s[i].1 by {
        lemma_unique_last(s, i);
    }
}

proof fn lemma_replace(
    before: Seq<(Seq<char>, Seq<char>)>,
    pos: int,
    k: Seq<char>,
    v: Seq<char>,
)
    requires
        keys_increasing(before),
        0 <= pos < before.len(),
        before[pos].0 == k,
    ensures
        keys_increasing(before.update(pos, (k, v))),
        as_map(before.update(pos, (k, v))) == as_map(before).insert(k, v),
{
    let after = before.update(pos, (k, v));
    assert(keys_increasing(after)) by {
        assert forall|i: int, j: int| 0 <= i < j < after.len() implies text_lt(
            after[i].0,
            after[j].0,
        ) by {
            assert(after[i].0 == before[i].0);
            assert(after[j].0 == before[j].0);
        }
    }
    lemma_map_at(before);
    lemma_map_at(after);
    let m = as_map(before).insert(k, v);
    assert forall|key: Seq<char>| #[trigger] as_map(after).contains_key(key) <==> m.contains_key(
        key,
    ) by {
        if as_map(after).contains_key(key) {
            let i = choose|i: int| 0 <= i < after.len() && after[i].0 == key;
            assert(before[i].0 == key);
        }
        if m.contains_key(key) && key != k {
            let i = choose|i: int| 0 <= i < before.len() && before[i].0 == key;
            assert(after[i].0 == key);
        }
        if key == k {
            assert(after[pos].0 == key);
        }
    }
    assert forall|key: Seq<char>| #[trigger] as_map(after).contains_key(key) implies as_map(
        after,
    )[key] == m[key] by {
        let i = choose|i: int| 0 <= i < after.len() && after[i].0 == key;
        assert(as_map(after)[after[i].0] == after[i].1);
        if i != pos {
            assert(after[i] == before[i]);
            assert(as_map(before)[before[i].0] == before[i].1);
            lemma_text_lt_irreflexive(k);
            if i < pos {
                assert(text_lt(before[i].0, before[pos].0));
            } else {
                assert(text_lt(before[pos].0, before[i].0));
            }
            assert(key != k);
        } else {
            assert(after[pos] == (k, v));
            assert(m[k] == v);
        }
    }
    assert(as_map(after) =~= m);
}

#[verifier::rlimit(40)]
proof fn lemma_put_in(before: Seq<(Seq<char>, Seq<char>)>, pos: int, k: Seq<char>, v: Seq<char>)
    requires
        keys_increasing(before),
        0 <= pos <= before.len(),
        forall|j: int| 0 <= j < pos ==> text_lt(#[trigger] before[j].0, k),
        pos < before.len() ==> text_lt(k, before[pos].0),
    ensures
        keys_increasing(before.insert(pos, (k, v))),
        as_map(before.insert(pos, (k, v))) == as_map(before).insert(k, v),
{
    let x = (k, v);
    let after = before.insert(pos, x);
    assert(after =~= before.take(pos) + seq![x] + before.skip(pos));
    assert forall|i: int| 0 <= i < after.len() implies #[trigger] after[i] == if i < pos {
        before[i]
    } else if i == pos {
        x
    } else {
        before[i - 1]
    } by {
        if i < pos {
            assert(after[i] == before.take(pos)[i]);
        } else if i > pos {
            assert(after[i] == before.skip(pos)[i - pos - 1]);
        }
    }
    assert(keys_increasing(after)) by {
        assert forall|i: int, j: int| 0 <= i < j < after.len() implies text_lt(
            after[i].0,
            after[j].0,
        ) by {
            let ai = after[i];
            let aj = after[j];
            if i < pos && j == pos {
            } else if i < pos && j > pos {
                if j - 1 > i {
                } else {
                    assert(j - 1 == i);
                }
                assert(text_lt(before[i].0, before[j - 1].0) || i == j - 1);
                if i == j - 1 {
                    assert(false);
                }
            } else if i == pos && j > pos {
                if j - 1 > pos {
                    lemma_text_lt_transitive(k, before[pos].0, before[j - 1].0);
                }
            } else {
            }
        }
    }
    lemma_map_at(before);
    lemma_map_at(after);
    let m = as_map(before).insert(k, v);
    assert forall|key: Seq<char>| #[trigger] as_map(after).contains_key(key) <==> m.contains_key(
        key,
    ) by {
        if as_map(after).contains_key(key) {
            let i = choose|i: int| 0 <= i < after.len() && after[i].0 == key;
            if i < pos {
                assert(before[i].0 == key);
            } else if i > pos {
                assert(before[i - 1].0 == key);
            }
        }
        if m.contains_key(key) && key != k {
            let i = choose|i: int| 0 <= i < before.len() && before[i].0 == key;
            if i < pos {
                assert(after[i].0 == key);
            } else {
                assert(after[i + 1].0 == key);
            }
        }
        if key == k {
            assert(after[pos].0 == key);
        }
    }
    assert forall|key: Seq<char>| #[trigger] as_map(after).contains_key(key) implies as_map(
        after,
    )[key] == m[key] by {
        let i = choose|i: int| 0 <= i < after.len() && after[i].0 == key;
        assert(as_map(after)[after[i].0] == after[i].1);
        if i == pos {
            assert(after[pos] == x);
            assert(key == k);
            assert(m[k] == v);
        } else if i < pos {
            assert(as_map(before)[before[i].0] == before[i].1);
            assert(text_lt(before[i].0, k));
            lemma_text_lt_irreflexive(k);
            assert(key != k);
        } else if i > pos {
            assert(as_map(before)[before[i - 1].0] == before[i - 1].1);
            assert(after[pos].0 == k);
            assert(text_lt(after[pos].0, after[i].0));
            lemma_text_lt_irreflexive(k);
            assert(key != k);
        }
    }
    assert(as_map(after) =~= m);
}

/// Como cada falha de busca chega à tela: ver `ui_error_of`.
impl From<LyricsError> for UiError {
    fn from(e: LyricsError) -> (r: Self)
        ensures
            r.code_view() == lyrics_error_code(e),
            as_map(r.pairs()) == lyrics_error_args(e),
    {
        ui_error_of(e)
    }
}

impl vstd::std_specs::convert::FromSpecImpl<LyricsError> for UiError {
    /// The result is stated by the `ensures` of `from` itself.
    open spec fn obeys_from_spec() -> bool {
        false
    }

    open spec fn from_spec(v: LyricsError) -> Self {
        vstd::pervasive::arbitrary()
    }
}

// ---------------------------------------------------------------------------
// Idioma
// ---------------------------------------------------------------------------

/// Idioma da interface.
///
/// `Auto` só existe como *preferência* do usuário. A detecção nunca devolve
/// `Auto`: ela resolve para um idioma concreto ou cai no inglês.
#[derive(Clone, Copy, Debug, Default, PartialEq, Eq, Structural)]
pub enum Language {
    #[default]
    Auto,
    PtBr,
    En,
}

/// O trecho antes do primeiro caractere que está em `stop`.
pub open spec fn before_any(s: Seq<char>, a: char, b: char) -> Seq<char> {
    match first_of_two(s, a, b, 0) {
        Some(k) => s.take(k),
        None => s,
    }
}

pub open spec fn first_of_two(s: Seq<char>, a: char, b: char, i: int) -> Option<int>
    decreases s.len() - i,
{
    if i < 0 || i >= s.len() {
        None
    } else if s[i] == a || s[i] == b {
        Some(i)
    } else {
        first_of_two(s, a, b, i + 1)
    }
}

/// Todo `-` trocado por `_`.
pub open spec fn dashes_to_underscores(s: Seq<char>) -> Seq<char> {
    s.map_values(|c: char| if c == '-' { '_' } else { c })
}

/// O idioma que um valor POSIX pede: só o prefixo antes de `.`, `@` e `_`
/// importa, e só `pt` é português.
pub open spec fn language_of(valor: Seq<char>) -> Language {
    let idioma = unicode_lowercase(dashes_to_underscores(before_any(valor, '.', '@')));
    let prefixo = match index_of(idioma, '_') {
        Some(k) => idioma.take(k),
        None => idioma,
    };
    if prefixo == seq!['p', 't'] {
        Language::PtBr
    } else {
        Language::En
    }
}

fn before_dot_or_at(s: &[char]) -> (r: Vec<char>)
    ensures
        r@ == before_any(s@, '.', '@'),
{
    let mut i: usize = 0;
    while i < s.len() && s[i] != '.' && s[i] != '@'
        invariant
            i <= s@.len(),
            first_of_two(s@, '.', '@', 0) == first_of_two(s@, '.', '@', i as int),
        decreases s@.len() - i,
    {
        i = i + 1;
    }
    if i < s.len() {
        let r = slice_vec(s, 0, i);
        assert(r@ =~= s@.take(i as int));
        r
    } else {
        let r = slice_vec(s, 0, s.len());
        assert(r@ =~= s@);
        r
    }
}

/// Lê o idioma de uma variável no formato POSIX (`pt_BR.UTF-8`, `en_US`, `C`).
///
/// Inglês é a reserva deliberada: quem não tem `LANG` configurado, ou tem `C`,
/// tem mais chance de ler inglês do que português.
pub fn da_variavel(valor: &str) -> (r: Language)
    ensures
        r == language_of(valor@),
        r != Language::Auto,
{
    let s = chars_of(valor);
    let cut = before_dot_or_at(s.as_slice());
    let mut swapped: Vec<char> = Vec::new();
    let mut i: usize = 0;
    while i < cut.len()
        invariant
            i <= cut@.len(),
            swapped@ == dashes_to_underscores(cut@.take(i as int)),
        decreases cut@.len() - i,
    {
        swapped.push(if cut[i] == '-' { '_' } else { cut[i] });
        i = i + 1;
        assert(swapped@ =~= dashes_to_underscores(cut@.take(i as int)));
    }
    assert(cut@.take(cut@.len() as int) =~= cut@);
    let idioma = lowercase(swapped.as_slice());
    let prefixo = match index_of_char(idioma.as_slice(), '_', 0) {
        Some(k) => {
            proof {
                crate::text::lemma_index_of_from(idioma@, '_', 0);
            }
            let p = slice_vec(idioma.as_slice(), 0, k);
            assert(p@ =~= idioma@.take(k as int));
            p
        },
        None => idioma,
    };
    if prefixo.len() == 2 && prefixo[0] == 'p' && prefixo[1] == 't' {
        assert(prefixo@ =~= seq!['p', 't']);
        Language::PtBr
    } else {
        Language::En
    }
}

/// O idioma do sistema, dado o que dizem `LC_ALL`, `LC_MESSAGES` e `LANG`,
/// nessa ordem de precedência. Variável ausente ou só com espaço não conta.
pub open spec fn system_language(valores: Seq<Option<Seq<char>>>) -> Language
    decreases valores.len(),
{
    if valores.len() == 0 {
        Language::En
    } else {
        match valores[0] {
            Some(v) if crate::text::trim(v).len() > 0 => language_of(v),
            _ => system_language(valores.drop_first()),
        }
    }
}

/// A detecção sempre decide: nunca devolve `Auto`, que é só a preferência de
/// quem ainda não escolheu.
pub proof fn law_a_deteccao_nunca_devolve_auto(valores: Seq<Option<Seq<char>>>)
    ensures
        system_language(valores) != Language::Auto,
    decreases valores.len(),
{
    if valores.len() > 0 {
        law_a_deteccao_nunca_devolve_auto(valores.drop_first());
    }
}

/// O idioma que vale, lendo as variáveis na ordem em que foram dadas.
pub fn idioma_das_variaveis(valores: &[Option<String>]) -> (r: Language)
    ensures
        r == system_language(valores@.map_values(
            |v: Option<String>| match v {
                Some(s) => Some(s@),
                None => None,
            },
        )),
{
    let ghost all = valores@.map_values(
        |v: Option<String>| match v {
            Some(s) => Some(s@),
            None => None,
        },
    );
    let mut i: usize = 0;
    assert(all.skip(0) =~= all);
    while i < valores.len()
        invariant
            i <= valores@.len(),
            all == valores@.map_values(
                |v: Option<String>| match v {
                    Some(s) => Some(s@),
                    None => None,
                },
            ),
            system_language(all) == system_language(all.skip(i as int)),
        decreases valores@.len() - i,
    {
        proof {
            assert(all.skip(i as int).drop_first() =~= all.skip(i + 1));
            assert(all.skip(i as int)[0] == all[i as int]);
        }
        match &valores[i] {
            Some(v) => {
                let t = crate::text::trimmed(chars_of(v.as_str()).as_slice());
                if t.len() > 0 {
                    return da_variavel(v.as_str());
                }
            },
            None => {},
        }
        i = i + 1;
    }
    assert(all.skip(i as int) =~= Seq::<Option<Seq<char>>>::empty());
    Language::En
}

} // verus!
