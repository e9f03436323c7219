//! Cache local de letras.
//!
//! Serve a três propósitos que parecem um só e não são:
//!
//! 1. **Velocidade** — a mesma música tocada de novo não vai à rede.
//! 2. **Offline** — letra marcada como fixada fica disponível sem internet.
//! 3. **Educação com a API** — uma faixa sem letra é registrada como tal, para
//!    não martelar o LRCLIB a cada vez que ela tocar.
//!
//! Aqui estão a tabela de letras, a de faixas sem letra e as regras de cada
//! operação; os contratos falam das duas tabelas como sequências de linhas.

use vstd::prelude::*;

use crate::text::{ascii_lower_seq, ascii_lowercase, chars_of, eq_chars, same_text, string_of};
use crate::time::unix_secs;
use crate::webview::lyrics::lrc::{par, pares};
use crate::webview::lyrics::{LyricLine, Lyrics};
use crate::webview::media::{track_key, Track};

verus! {

/// Quanto tempo uma busca fracassada continua valendo antes de tentar de novo,
/// em segundos. Letra nova é adicionada ao LRCLIB toda hora, então isto não
/// pode ser eterno.
pub const MISS_TTL_SECS: i64 = 259200;

/// Uma letra como os contratos a veem: linhas, letra corrida, instrumental,
/// fonte, id no provedor e tradução.
pub type LetraV = (
    Seq<(i64, Seq<char>)>,
    Option<Seq<char>>,
    bool,
    Seq<char>,
    Option<Seq<char>>,
    Option<Seq<(i64, Seq<char>)>>,
);

/// Uma linha da tabela de letras: chave, artista, título, álbum, duração,
/// a letra, se está fixada, e quando foi gravada.
pub type LinhaV = (Seq<char>, Seq<char>, Seq<char>, Seq<char>, Option<u64>, LetraV, bool, i64);

/// Uma faixa sem letra: chave, e quando a busca falhou.
pub type FalhaV = (Seq<char>, i64);

/// Uma fixada na lista do modo offline: chave, artista, título, sincronizada.
pub type FixadaV = (Seq<char>, Seq<char>, Seq<char>, bool);

pub open spec fn texto_opcional(o: Option<String>) -> Option<Seq<char>> {
    match o {
        Some(s) => Some(s@),
        None => None,
    }
}

pub open spec fn letra_vista(l: Lyrics) -> LetraV {
    (
        pares(l.lines@),
        texto_opcional(l.plain),
        l.instrumental,
        l.source@,
        texto_opcional(l.provider_id),
        match l.translation {
            Some(t) => Some(pares(t@)),
            None => None,
        },
    )
}

/// A primeira posição com a chave `k`, se há alguma.
pub open spec fn posicao(s: Seq<LinhaV>, k: Seq<char>) -> Option<int> {
    if exists|i: int| 0 <= i < s.len() && #[trigger] s[i].0 == k {
        Some(
            choose|i: int|
                0 <= i < s.len() && s[i].0 == k && forall|j: int| 0 <= j < i ==> #[trigger] s[j].0 != k,
        )
    } else {
        None
    }
}

/// A primeira falha registrada com a chave `k`, se há alguma.
pub open spec fn posicao_falha(s: Seq<FalhaV>, k: Seq<char>) -> Option<int> {
    if exists|i: int| 0 <= i < s.len() && #[trigger] s[i].0 == k {
        Some(
            choose|i: int|
                0 <= i < s.len() && s[i].0 == k && forall|j: int| 0 <= j < i ==> #[trigger] s[j].0 != k,
        )
    } else {
        None
    }
}

proof fn lemma_posicao(s: Seq<LinhaV>, k: Seq<char>, i: int)
    requires
        0 <= i < s.len(),
        s[i].0 == k,
        forall|j: int| 0 <= j < i ==> #[trigger] s[j].0 != k,
    ensures
        posicao(s, k) == Some(i),
{
    let c = choose|m: int|
        0 <= m < s.len() && s[m].0 == k && forall|j: int| 0 <= j < m ==> #[trigger] s[j].0 != k;
    assert(c == i) by {
        if c < i {
            assert(s[c].0 != k);
        }
        if c > i {
            assert(s[i].0 != k);
        }
    }
}

proof fn lemma_posicao_falha(s: Seq<FalhaV>, k: Seq<char>, i: int)
    requires
        0 <= i < s.len(),
        s[i].0 == k,
        forall|j: int| 0 <= j < i ==> #[trigger] s[j].0 != k,
    ensures
        posicao_falha(s, k) == Some(i),
{
    let c = choose|m: int|
        0 <= m < s.len() && s[m].0 == k && forall|j: int| 0 <= j < m ==> #[trigger] s[j].0 != k;
    assert(c == i) by {
        if c < i {
            assert(s[c].0 != k);
        }
        if c > i {
            assert(s[i].0 != k);
        }
    }
}

/// Regravar uma faixa já guardada: a letra nova, exceto que uma tradução já
/// baixada não é apagada por uma rebusca da letra original; artista, título,
/// álbum, duração e fixação ficam.
pub open spec fn regravada(g: LinhaV, l: LetraV, agora: i64) -> LinhaV {
    let traducao = if l.5 is Some {
        l.5
    } else {
        g.5.5
    };
    (g.0, g.1, g.2, g.3, g.4, (l.0, l.1, l.2, l.3, l.4, traducao), g.6, agora)
}

/// A mesma linha, fixada ou não.
pub open spec fn com_fixacao(g: LinhaV, fixada: bool) -> LinhaV {
    (g.0, g.1, g.2, g.3, g.4, g.5, fixada, g.7)
}

/// Uma faixa nova na tabela: não nasce fixada.
pub open spec fn nova(t: Track, l: LetraV, agora: i64) -> LinhaV {
    (track_key(t.artist@, t.title@, t.album@), t.artist@, t.title@, t.album@, t.duration_ms, l, false, agora)
}

/// As falhas sem as da chave `k`.
pub open spec fn sem_falha(s: Seq<FalhaV>, k: Seq<char>) -> Seq<FalhaV>
    decreases s.len(),
{
    if s.len() == 0 {
        s
    } else {
        let d = sem_falha(s.drop_last(), k);
        if s.last().0 == k {
            d
        } else {
            d.push(s.last())
        }
    }
}

/// A tabela depois de gravar `l` para a faixa `t` no instante `agora`.
pub open spec fn gravada(s: Seq<LinhaV>, t: Track, l: LetraV, agora: i64) -> Seq<LinhaV> {
    match posicao(s, track_key(t.artist@, t.title@, t.album@)) {
        Some(i) => s.update(i, regravada(s[i], l, agora)),
        None => s.push(nova(t, l, agora)),
    }
}

/// As falhas depois de registrar uma para `k` no instante `agora`.
pub open spec fn falhada(s: Seq<FalhaV>, k: Seq<char>, agora: i64) -> Seq<FalhaV> {
    match posicao_falha(s, k) {
        Some(i) => s.update(i, (k, agora)),
        None => s.push((k, agora)),
    }
}

/// Vale tentar a rede de novo: sem falha registrada, ou uma que já caducou.
pub open spec fn vale_tentar(s: Seq<FalhaV>, k: Seq<char>, agora: i64) -> bool {
    match posicao_falha(s, k) {
        Some(i) => agora - s[i].1 > MISS_TTL_SECS,
        None => true,
    }
}

/// Quantas linhas têm letra sincronizada.
pub open spec fn sincronizadas(s: Seq<LinhaV>) -> nat
    decreases s.len(),
{
    if s.len() == 0 {
        0
    } else {
        sincronizadas(s.drop_last()) + if s.last().5.0.len() > 0 {
            1nat
        } else {
            0nat
        }
    }
}

/// Quantas linhas estão fixadas.
pub open spec fn contadas_fixadas(s: Seq<LinhaV>) -> nat
    decreases s.len(),
{
    if s.len() == 0 {
        0
    } else {
        contadas_fixadas(s.drop_last()) + if s.last().6 {
            1nat
        } else {
            0nat
        }
    }
}

/// Uma contagem, presa ao que cabe em `i64`.
pub open spec fn contagem(n: nat) -> i64 {
    if n <= i64::MAX {
        n as i64
    } else {
        i64::MAX
    }
}

/// `a` não vem depois de `b`, comparando caractere a caractere.
pub open spec fn lex_le(a: Seq<char>, b: Seq<char>) -> bool
    decreases a.len(),
{
    if a.len() == 0 {
        true
    } else if b.len() == 0 {
        false
    } else if a[0] != b[0] {
        (a[0] as u32) < (b[0] as u32)
    } else {
        lex_le(a.drop_first(), b.drop_first())
    }
}

/// Ordem da lista de fixadas: por artista e depois por título, sem distinguir
/// maiúsculas de minúsculas ASCII.
pub open spec fn nome_le(x: FixadaV, y: FixadaV) -> bool {
    let a = ascii_lower_seq(x.1);
    let b = ascii_lower_seq(y.1);
    if a != b {
        lex_le(a, b)
    } else {
        lex_le(ascii_lower_seq(x.2), ascii_lower_seq(y.2))
    }
}

/// Quantas entradas do começo de `t` não vêm depois de `x`.
pub open spec fn lugar_nome(t: Seq<FixadaV>, x: FixadaV) -> int
    decreases t.len(),
{
    if t.len() == 0 {
        0
    } else if nome_le(t[0], x) {
        1 + lugar_nome(t.drop_first(), x)
    } else {
        0
    }
}

/// Em ordem de nome; entre nomes iguais, na ordem da tabela.
pub open spec fn por_nome(s: Seq<FixadaV>) -> Seq<FixadaV>
    decreases s.len(),
{
    if s.len() == 0 {
        s
    } else {
        let t = por_nome(s.drop_last());
        t.insert(lugar_nome(t, s.last()), s.last())
    }
}

/// As linhas fixadas, como entram na lista: sincronizada quando tem linhas.
pub open spec fn fixadas(s: Seq<LinhaV>) -> Seq<FixadaV>
    decreases s.len(),
{
    if s.len() == 0 {
        Seq::empty()
    } else {
        let d = fixadas(s.drop_last());
        let g = s.last();
        if g.6 {
            d.push((g.0, g.1, g.2, g.5.0.len() > 0))
        } else {
            d
        }
    }
}

proof fn lemma_posicao_diz(s: Seq<LinhaV>, k: Seq<char>)
    ensures
        posicao(s, k) matches Some(i) ==> 0 <= i < s.len() && s[i].0 == k && forall|j: int|
            0 <= j < i ==> #[trigger] s[j].0 != k,
        posicao(s, k) is None ==> forall|j: int| 0 <= j < s.len() ==> #[trigger] s[j].0 != k,
{
    if exists|i: int| 0 <= i < s.len() && #[trigger] s[i].0 == k {
        let w = choose|i: int| 0 <= i < s.len() && #[trigger] s[i].0 == k;
        lemma_primeira(s, k, w);
    }
}

proof fn lemma_primeira(s: Seq<LinhaV>, k: Seq<char>, w: int)
    requires
        0 <= w < s.len(),
        s[w].0 == k,
    ensures
        exists|i: int| 0 <= i < s.len() && s[i].0 == k && forall|j: int| 0 <= j < i ==> #[trigger] s[j].0 != k,
    decreases w,
{
    if exists|j: int| 0 <= j < w && #[trigger] s[j].0 == k {
        let v = choose|j: int| 0 <= j < w && #[trigger] s[j].0 == k;
        lemma_primeira(s, k, v);
    } else {
        assert(0 <= w < s.len() && s[w].0 == k && forall|j: int| 0 <= j < w ==> #[trigger] s[j].0 != k);
    }
}

proof fn lemma_posicao_falha_diz(s: Seq<FalhaV>, k: Seq<char>)
    ensures
        posicao_falha(s, k) matches Some(i) ==> 0 <= i < s.len() && s[i].0 == k && forall|j: int|
            0 <= j < i ==> #[trigger] s[j].0 != k,
        posicao_falha(s, k) is None ==> forall|j: int| 0 <= j < s.len() ==> #[trigger] s[j].0 != k,
{
    if exists|i: int| 0 <= i < s.len() && #[trigger] s[i].0 == k {
        let w = choose|i: int| 0 <= i < s.len() && #[trigger] s[i].0 == k;
        lemma_primeira_falha(s, k, w);
    }
}

proof fn lemma_primeira_falha(s: Seq<FalhaV>, k: Seq<char>, w: int)
    requires
        0 <= w < s.len(),
        s[w].0 == k,
    ensures
        exists|i: int| 0 <= i < s.len() && s[i].0 == k && forall|j: int| 0 <= j < i ==> #[trigger] s[j].0 != k,
    decreases w,
{
    if exists|j: int| 0 <= j < w && #[trigger] s[j].0 == k {
        let v = choose|j: int| 0 <= j < w && #[trigger] s[j].0 == k;
        lemma_primeira_falha(s, k, v);
    } else {
        assert(0 <= w < s.len() && s[w].0 == k && forall|j: int| 0 <= j < w ==> #[trigger] s[j].0 != k);
    }
}

/// O que se grava se lê: depois de gravar uma letra para a faixa, a busca pela
/// chave da faixa acha uma linha com essa letra — com a tradução gravada, ou,
/// quando a gravação não trouxe tradução, sem apagar a que já havia.
pub proof fn law_o_que_se_grava_se_le(s: Seq<LinhaV>, t: Track, l: LetraV, agora: i64)
    ensures
        ({
            let k = track_key(t.artist@, t.title@, t.album@);
            let g = gravada(s, t, l, agora);
            &&& posicao(g, k) is Some
            &&& g[posicao(g, k)->0].5.0 == l.0
            &&& g[posicao(g, k)->0].5.1 == l.1
            &&& g[posicao(g, k)->0].5.2 == l.2
            &&& g[posicao(g, k)->0].5.3 == l.3
            &&& g[posicao(g, k)->0].5.4 == l.4
            &&& l.5 is Some ==> g[posicao(g, k)->0].5.5 == l.5
            &&& (l.5 is None && posicao(s, k) is Some) ==> g[posicao(g, k)->0].5.5 == s[posicao(s, k)->0].5.5
            &&& g[posicao(g, k)->0].7 == agora
        }),
{
    let k = track_key(t.artist@, t.title@, t.album@);
    let g = gravada(s, t, l, agora);
    lemma_posicao_diz(s, k);
    match posicao(s, k) {
        Some(i) => {
            assert forall|j: int| 0 <= j < i implies #[trigger] g[j].0 != k by {
                assert(g[j] == s[j]);
            }
            lemma_posicao(g, k, i);
        },
        None => {
            assert forall|j: int| 0 <= j < s.len() implies #[trigger] g[j].0 != k by {
                assert(g[j] == s[j]);
                if s[j].0 == k {
                    assert(exists|m: int| 0 <= m < s.len() && #[trigger] s[m].0 == k);
                }
            }
            lemma_posicao(g, k, s.len() as int);
        },
    }
}

proof fn lemma_sem_falha(s: Seq<FalhaV>, k: Seq<char>)
    ensures
        forall|j: int| 0 <= j < sem_falha(s, k).len() ==> #[trigger] sem_falha(s, k)[j].0 != k,
    decreases s.len(),
{
    if s.len() > 0 {
        let d = sem_falha(s.drop_last(), k);
        lemma_sem_falha(s.drop_last(), k);
        if s.last().0 != k {
            assert forall|j: int| 0 <= j < d.push(s.last()).len() implies #[trigger] d.push(s.last())[j].0 != k by {
                if j < d.len() {
                    assert(d.push(s.last())[j] == d[j]);
                }
            }
        }
    }
}

/// Achou agora, um fracasso anterior não vale mais: depois de gravar a letra,
/// a faixa não tem falha registrada, e a rede vale a pena a qualquer hora.
pub proof fn law_gravar_esquece_a_falha(f: Seq<FalhaV>, k: Seq<char>, agora: i64)
    ensures
        posicao_falha(sem_falha(f, k), k) is None,
        vale_tentar(sem_falha(f, k), k, agora),
{
    let d = sem_falha(f, k);
    lemma_sem_falha(f, k);
    if exists|i: int| 0 <= i < d.len() && #[trigger] d[i].0 == k {
        let w = choose|i: int| 0 <= i < d.len() && #[trigger] d[i].0 == k;
        assert(d[w].0 != k);
    }
}

/// Uma falha recém-registrada segura a busca até caducar: logo depois dela
/// não se tenta, e passado o prazo se tenta de novo.
pub proof fn law_a_falha_caduca(f: Seq<FalhaV>, k: Seq<char>, quando: i64, agora: i64)
    ensures
        vale_tentar(falhada(f, k, quando), k, agora) == (agora - quando > MISS_TTL_SECS),
{
    let g = falhada(f, k, quando);
    lemma_posicao_falha_diz(f, k);
    match posicao_falha(f, k) {
        Some(i) => {
            assert forall|j: int| 0 <= j < i implies #[trigger] g[j].0 != k by {
                assert(g[j] == f[j]);
            }
            lemma_posicao_falha(g, k, i);
        },
        None => {
            assert forall|j: int| 0 <= j < f.len() implies #[trigger] g[j].0 != k by {
                assert(g[j] == f[j]);
                if f[j].0 == k {
                    assert(exists|m: int| 0 <= m < f.len() && #[trigger] f[m].0 == k);
                }
            }
            lemma_posicao_falha(g, k, f.len() as int);
        },
    }
}

/// Uma letra que o usuário mandou manter offline.
#[derive(Debug, Clone, PartialEq, Eq)]
pub struct PinnedLyrics {
    pub track_key: String,
    pub artist: String,
    pub title: String,
    /// Sincronizada palavra a palavra, ou só o texto.
    pub synced: bool,
}

pub open spec fn fixada_vista(p: PinnedLyrics) -> FixadaV {
    (p.track_key@, p.artist@, p.title@, p.synced)
}

#[derive(Debug, PartialEq, Eq, Structural)]
pub struct CacheStats {
    /// Faixas com alguma letra guardada.
    pub tracks: i64,
    /// Destas, quantas têm letra sincronizada.
    pub synced: i64,
    /// Fixadas para uso offline.
    pub pinned: i64,
    /// Faixas conhecidas como sem letra — a busca nem é refeita.
    pub misses: i64,
}

impl Default for CacheStats {
    fn default() -> (r: Self)
        ensures
            r == (CacheStats { tracks: 0, synced: 0, pinned: 0, misses: 0 }),
    {
        CacheStats { tracks: 0, synced: 0, pinned: 0, misses: 0 }
    }
}

struct Guardada {
    track_key: String,
    artist: String,
    title: String,
    album: String,
    duration_ms: Option<u64>,
    lyrics: Lyrics,
    pinned: bool,
    fetched_at: i64,
}

struct Falha {
    track_key: String,
    tried_at: i64,
}

spec fn guardada_vista(g: Guardada) -> LinhaV {
    (g.track_key@, g.artist@, g.title@, g.album@, g.duration_ms, letra_vista(g.lyrics), g.pinned, g.fetched_at)
}

spec fn falha_vista(f: Falha) -> FalhaV {
    (f.track_key@, f.tried_at)
}

/// O cache: a tabela de letras e a de faixas sem letra.
pub struct Cache {
    letras: Vec<Guardada>,
    falhas: Vec<Falha>,
}

fn copiar_texto(o: &Option<String>) -> (r: Option<String>)
    ensures
        texto_opcional(r) == texto_opcional(*o),
{
    match o {
        Some(s) => Some(s.clone()),
        None => None,
    }
}

fn copiar_linhas(v: &Vec<LyricLine>) -> (r: Vec<LyricLine>)
    ensures
        pares(r@) == pares(v@),
{
    let mut r: Vec<LyricLine> = Vec::new();
    let mut i: usize = 0;
    while i < v.len()
        invariant
            i <= v@.len(),
            r@.len() == i,
            pares(r@) == pares(v@.take(i as int)),
        decreases v@.len() - i,
    {
        let ghost antes = r@;
        r.push(LyricLine { at_ms: v[i].at_ms, text: v[i].text.clone() });
        proof {
            assert(r@ == antes.push(r@[i as int]));
            assert(par(r@[i as int]) == par(v@[i as int]));
            assert forall|j: int| 0 <= j < i + 1 implies #[trigger] pares(r@)[j] == pares(v@.take(i + 1))[j] by {
                if j < i {
                    assert(pares(r@)[j] == par(r@[j]));
                    assert(r@[j] == antes[j]);
                    assert(pares(antes)[j] == pares(v@.take(i as int))[j]);
                    assert(v@.take(i + 1)[j] == v@.take(i as int)[j]);
                }
            }
        }
        assert(pares(r@) =~= pares(v@.take(i + 1)));
        i = i + 1;
    }
    assert(v@.take(v@.len() as int) =~= v@);
    r
}

fn copiar_traducao(o: &Option<Vec<LyricLine>>) -> (r: Option<Vec<LyricLine>>)
    ensures
        match (r, *o) {
            (Some(a), Some(b)) => pares(a@) == pares(b@),
            (None, None) => true,
            _ => false,
        },
{
    match o {
        Some(t) => Some(copiar_linhas(t)),
        None => None,
    }
}

fn copiar_letra(l: &Lyrics) -> (r: Lyrics)
    ensures
        letra_vista(r) == letra_vista(*l),
{
    Lyrics {
        lines: copiar_linhas(&l.lines),
        plain: copiar_texto(&l.plain),
        instrumental: l.instrumental,
        source: l.source.clone(),
        provider_id: copiar_texto(&l.provider_id),
        translation: match &l.translation {
            Some(t) => Some(copiar_linhas(t)),
            None => None,
        },
    }
}

fn contar(n: usize) -> (r: i64)
    ensures
        r == contagem(n as nat),
{
    let m = n as u64;
    if m <= 9223372036854775807u64 {
        m as i64
    } else {
        i64::MAX
    }
}

fn string_de(s: &str) -> (r: String)
    ensures
        r@ == s@,
{
    string_of(chars_of(s).as_slice())
}

fn lex_le_exec(a: &[char], b: &[char]) -> (r: bool)
    ensures
        r == lex_le(a@, b@),
{
    let mut i: usize = 0;
    assert(a@.skip(0) =~= a@);
    assert(b@.skip(0) =~= b@);
    while i < a.len() && i < b.len() && a[i] == b[i]
        invariant
            i <= a@.len(),
            i <= b@.len(),
            lex_le(a@, b@) == lex_le(a@.skip(i as int), b@.skip(i as int)),
        decreases a@.len() - i,
    {
        assert(a@.skip(i as int).drop_first() =~= a@.skip(i + 1));
        assert(b@.skip(i as int).drop_first() =~= b@.skip(i + 1));
        i = i + 1;
    }
    if i == a.len() {
        true
    } else if i == b.len() {
        false
    } else {
        assert(a@.skip(i as int)[0] == a@[i as int]);
        assert(b@.skip(i as int)[0] == b@[i as int]);
        (a[i] as u32) < (b[i] as u32)
    }
}

fn nome_le_exec(x: &PinnedLyrics, y: &PinnedLyrics) -> (r: bool)
    ensures
        r == nome_le(fixada_vista(*x), fixada_vista(*y)),
{
    let a = ascii_lowercase(chars_of(x.artist.as_str()).as_slice());
    let b = ascii_lowercase(chars_of(y.artist.as_str()).as_slice());
    if !eq_chars(a.as_slice(), b.as_slice()) {
        lex_le_exec(a.as_slice(), b.as_slice())
    } else {
        let c = ascii_lowercase(chars_of(x.title.as_str()).as_slice());
        let d = ascii_lowercase(chars_of(y.title.as_str()).as_slice());
        lex_le_exec(c.as_slice(), d.as_slice())
    }
}

proof fn lemma_lugar_nome(t: Seq<FixadaV>, x: FixadaV, p: int)
    requires
        0 <= p <= t.len(),
        forall|k: int| 0 <= k < p ==> nome_le(#[trigger] t[k], x),
        p < t.len() ==> !nome_le(t[p], x),
    ensures
        lugar_nome(t, x) == p,
    decreases p,
{
    if p > 0 {
        let r = t.drop_first();
        assert forall|k: int| 0 <= k < p - 1 implies nome_le(#[trigger] r[k], x) by {
            assert(r[k] == t[k + 1]);
        }
        if p - 1 < r.len() {
            assert(r[p - 1] == t[p]);
        }
        assert(nome_le(t[0], x));
        lemma_lugar_nome(r, x, p - 1);
    }
}

fn copiar_fixada(p: &PinnedLyrics) -> (r: PinnedLyrics)
    ensures
        fixada_vista(r) == fixada_vista(*p),
{
    PinnedLyrics {
        track_key: p.track_key.clone(),
        artist: p.artist.clone(),
        title: p.title.clone(),
        synced: p.synced,
    }
}

impl Cache {
    /// As letras guardadas, na ordem em que entraram.
    pub closed spec fn linhas(self) -> Seq<LinhaV> {
        self.letras@.map_values(|g: Guardada| guardada_vista(g))
    }

    /// As faixas registradas como sem letra.
    pub closed spec fn registros(self) -> Seq<FalhaV> {
        self.falhas@.map_values(|f: Falha| falha_vista(f))
    }

    /// Um cache vazio, só na memória.
    pub fn in_memory() -> (c: Self)
        ensures
            c.linhas() == Seq::<LinhaV>::empty(),
            c.registros() == Seq::<FalhaV>::empty(),
    {
        let c = Cache { letras: Vec::new(), falhas: Vec::new() };
        assert(c.linhas() =~= Seq::<LinhaV>::empty());
        assert(c.registros() =~= Seq::<FalhaV>::empty());
        c
    }

    fn achar(&self, k: &str) -> (r: Option<usize>)
        ensures
            match posicao(self.linhas(), k@) {
                Some(i) => r is Some && r->0 as int == i,
                None => r is None,
            },
            r matches Some(i) ==> i < self.letras@.len() && self.linhas()[i as int] == guardada_vista(
                self.letras@[i as int],
            ),
    {
        let ghost s = self.linhas();
        let mut i: usize = 0;
        while i < self.letras.len()
            invariant
                i <= self.letras@.len(),
                s == self.linhas(),
                s.len() == self.letras@.len(),
                forall|j: int| 0 <= j < i ==> #[trigger] s[j].0 != k@,
            decreases self.letras@.len() - i,
        {
            assert(s[i as int] == guardada_vista(self.letras@[i as int]));
            if same_text(self.letras[i].track_key.as_str(), k) {
                proof {
                    lemma_posicao(s, k@, i as int);
                }
                return Some(i);
            }
            i = i + 1;
        }
        None
    }

    fn achar_falha(&self, k: &str) -> (r: Option<usize>)
        ensures
            match posicao_falha(self.registros(), k@) {
                Some(i) => r is Some && r->0 as int == i,
                None => r is None,
            },
            r matches Some(i) ==> i < self.falhas@.len() && self.registros()[i as int] == falha_vista(
                self.falhas@[i as int],
            ),
    {
        let ghost s = self.registros();
        let mut i: usize = 0;
        while i < self.falhas.len()
            invariant
                i <= self.falhas@.len(),
                s == self.registros(),
                s.len() == self.falhas@.len(),
                forall|j: int| 0 <= j < i ==> #[trigger] s[j].0 != k@,
            decreases self.falhas@.len() - i,
        {
            assert(s[i as int] == falha_vista(self.falhas@[i as int]));
            if same_text(self.falhas[i].track_key.as_str(), k) {
                proof {
                    lemma_posicao_falha(s, k@, i as int);
                }
                return Some(i);
            }
            i = i + 1;
        }
        None
    }

    /// A letra guardada para a faixa, se há.
    #[verifier::spinoff_prover]
    pub fn get(&self, track_key: &str) -> (r: Option<Lyrics>)
        ensures
            match posicao(self.linhas(), track_key@) {
                Some(i) => r is Some && letra_vista(r->0) == self.linhas()[i].5,
                None => r is None,
            },
    {
        match self.achar(track_key) {
            Some(i) => {
                let l = copiar_letra(&self.letras[i].lyrics);
                assert(guardada_vista(self.letras@[i as int]).5 == letra_vista(self.letras@[i as int].lyrics));
                assert(letra_vista(l) == self.linhas()[i as int].5);
                Some(l)
            },
            None => None,
        }
    }

    fn sem_falha_de(&mut self, k: &str)
        ensures
            final(self).registros() == sem_falha(old(self).registros(), k@),
            final(self).linhas() == old(self).linhas(),
    {
        let ghost antes = self.registros();
        let mut novas: Vec<Falha> = Vec::new();
        let mut i: usize = 0;
        while i < self.falhas.len()
            invariant
                i <= self.falhas@.len(),
                antes == self.registros(),
                antes.len() == self.falhas@.len(),
                novas@.map_values(|f: Falha| falha_vista(f)) == sem_falha(antes.take(i as int), k@),
            decreases self.falhas@.len() - i,
        {
            let ghost vistas = novas@.map_values(|f: Falha| falha_vista(f));
            assert(antes.take(i + 1).drop_last() =~= antes.take(i as int));
            assert(antes[i as int] == falha_vista(self.falhas@[i as int]));
            if !same_text(self.falhas[i].track_key.as_str(), k) {
                novas.push(Falha { track_key: self.falhas[i].track_key.clone(), tried_at: self.falhas[i].tried_at });
                assert(novas@.map_values(|f: Falha| falha_vista(f)) =~= vistas.push(antes[i as int]));
            }
            i = i + 1;
        }
        assert(antes.take(antes.len() as int) =~= antes);
        self.falhas = novas;
    }

    /// Grava a letra da faixa no instante `agora`, em segundos: uma faixa
    /// nova entra no fim da tabela sem estar fixada; uma já guardada troca a
    /// letra, mas uma tradução já baixada não é apagada por uma rebusca da
    /// letra original. Achou agora: um fracasso anterior não vale mais.
    pub fn put_at(&mut self, track: &Track, lyrics: &Lyrics, agora: i64)
        ensures
            final(self).linhas() == gravada(old(self).linhas(), *track, letra_vista(*lyrics), agora),
            final(self).registros() == sem_falha(
                old(self).registros(),
                track_key(track.artist@, track.title@, track.album@),
            ),
    {
        let k = track.key();
        let ghost antes = self.linhas();
        match self.achar(k.as_str()) {
            Some(i) => {
                let velha = &self.letras[i];
                let traducao = if lyrics.translation.is_some() {
                    copiar_traducao(&lyrics.translation)
                } else {
                    copiar_traducao(&velha.lyrics.translation)
                };
                let g = Guardada {
                    track_key: velha.track_key.clone(),
                    artist: velha.artist.clone(),
                    title: velha.title.clone(),
                    album: velha.album.clone(),
                    duration_ms: velha.duration_ms,
                    lyrics: Lyrics {
                        lines: copiar_linhas(&lyrics.lines),
                        plain: copiar_texto(&lyrics.plain),
                        instrumental: lyrics.instrumental,
                        source: lyrics.source.clone(),
                        provider_id: copiar_texto(&lyrics.provider_id),
                        translation: traducao,
                    },
                    pinned: velha.pinned,
                    fetched_at: agora,
                };
                proof {
                    assert(guardada_vista(g) == regravada(antes[i as int], letra_vista(*lyrics), agora));
                }
                self.letras.set(i, g);
                assert(self.linhas() =~= antes.update(i as int, guardada_vista(g)));
            },
            None => {
                let g = Guardada {
                    track_key: k.clone(),
                    artist: track.artist.clone(),
                    title: track.title.clone(),
                    album: track.album.clone(),
                    duration_ms: track.duration_ms,
                    lyrics: copiar_letra(lyrics),
                    pinned: false,
                    fetched_at: agora,
                };
                assert(guardada_vista(g) == nova(*track, letra_vista(*lyrics), agora));
                self.letras.push(g);
                assert(self.linhas() =~= antes.push(guardada_vista(g)));
            },
        }
        self.sem_falha_de(k.as_str());
    }

    /// `put_at`, no instante em que o relógio do sistema diz estar.
    pub fn put(&mut self, track: &Track, lyrics: &Lyrics)
        ensures
            exists|agora: i64|
                final(self).linhas() == #[trigger] gravada(old(self).linhas(), *track, letra_vista(*lyrics), agora),
            final(self).registros() == sem_falha(
                old(self).registros(),
                track_key(track.artist@, track.title@, track.album@),
            ),
    {
        let agora = unix_secs();
        self.put_at(track, lyrics, agora);
    }

    /// Quanto o cache já poupou de rede — o número que responde "ele guarda
    /// mesmo?" sem depender de acreditar.
    pub fn stats(&self) -> (r: CacheStats)
        ensures
            r.tracks == contagem(self.linhas().len()),
            r.synced == contagem(sincronizadas(self.linhas())),
            r.pinned == contagem(contadas_fixadas(self.linhas())),
            r.misses == contagem(self.registros().len()),
    {
        let ghost s = self.linhas();
        let mut sinc: usize = 0;
        let mut fix: usize = 0;
        let mut i: usize = 0;
        while i < self.letras.len()
            invariant
                i <= self.letras@.len(),
                s == self.linhas(),
                s.len() == self.letras@.len(),
                sinc == sincronizadas(s.take(i as int)),
                fix == contadas_fixadas(s.take(i as int)),
                sinc <= i,
                fix <= i,
            decreases self.letras@.len() - i,
        {
            assert(s.take(i + 1).drop_last() =~= s.take(i as int));
            assert(s[i as int] == guardada_vista(self.letras@[i as int]));
            assert(s[i as int].5.0.len() == self.letras@[i as int].lyrics.lines@.len());
            if self.letras[i].lyrics.lines.len() > 0 {
                sinc = sinc + 1;
            }
            if self.letras[i].pinned {
                fix = fix + 1;
            }
            i = i + 1;
        }
        assert(s.take(s.len() as int) =~= s);
        CacheStats {
            tracks: contar(self.letras.len()),
            synced: contar(sinc),
            pinned: contar(fix),
            misses: contar(self.falhas.len()),
        }
    }

    /// Marca a faixa como sem letra conhecida, no instante `agora`.
    pub fn mark_miss_at(&mut self, track_key: &str, agora: i64)
        ensures
            final(self).registros() == falhada(old(self).registros(), track_key@, agora),
            final(self).linhas() == old(self).linhas(),
    {
        let ghost antes = self.registros();
        let f = Falha { track_key: string_de(track_key), tried_at: agora };
        match self.achar_falha(track_key) {
            Some(i) => {
                self.falhas.set(i, f);
                assert(self.registros() =~= antes.update(i as int, (track_key@, agora)));
            },
            None => {
                self.falhas.push(f);
                assert(self.registros() =~= antes.push((track_key@, agora)));
            },
        }
    }

    /// `mark_miss_at`, no instante em que o relógio do sistema diz estar.
    pub fn mark_miss(&mut self, track_key: &str)
        ensures
            exists|agora: i64|
                final(self).registros() == #[trigger] falhada(old(self).registros(), track_key@, agora),
            final(self).linhas() == old(self).linhas(),
    {
        let agora = unix_secs();
        self.mark_miss_at(track_key, agora);
    }

    /// Vale a pena tentar a rede de novo para esta faixa, no instante `agora`?
    pub fn should_retry_at(&self, track_key: &str, agora: i64) -> (r: bool)
        ensures
            r == vale_tentar(self.registros(), track_key@, agora),
    {
        match self.achar_falha(track_key) {
            Some(i) => (agora as i128) - (self.falhas[i].tried_at as i128) > (MISS_TTL_SECS as i128),
            None => true,
        }
    }

    /// `should_retry_at`, no instante em que o relógio do sistema diz estar:
    /// sem falha registrada, sempre vale.
    pub fn should_retry(&self, track_key: &str) -> (r: bool)
        ensures
            exists|agora: i64| r == #[trigger] vale_tentar(self.registros(), track_key@, agora),
    {
        let agora = unix_secs();
        self.should_retry_at(track_key, agora)
    }

    /// Fixa a letra para uso offline.
    ///
    /// Devolve `false` quando não há letra guardada para essa faixa — fixar o
    /// que não existe não faz sentido, e a interface precisa saber para não
    /// mostrar como fixada uma faixa que não está.
    pub fn set_pinned(&mut self, track_key: &str, pinned: bool) -> (r: bool)
        ensures
            match posicao(old(self).linhas(), track_key@) {
                Some(i) => r && final(self).linhas() == old(self).linhas().update(
                    i,
                    com_fixacao(old(self).linhas()[i], pinned),
                ),
                None => !r && final(self).linhas() == old(self).linhas(),
            },
            final(self).registros() == old(self).registros(),
    {
        let ghost antes = self.linhas();
        match self.achar(track_key) {
            Some(i) => {
                let velha = &self.letras[i];
                let g = Guardada {
                    track_key: velha.track_key.clone(),
                    artist: velha.artist.clone(),
                    title: velha.title.clone(),
                    album: velha.album.clone(),
                    duration_ms: velha.duration_ms,
                    lyrics: copiar_letra(&velha.lyrics),
                    pinned,
                    fetched_at: velha.fetched_at,
                };
                assert(guardada_vista(g) == com_fixacao(antes[i as int], pinned));
                self.letras.set(i, g);
                assert(self.linhas() =~= antes.update(i as int, guardada_vista(g)));
                true
            },
            None => false,
        }
    }

    /// Se a letra da faixa está fixada; uma faixa sem letra guardada não está.
    pub fn is_pinned(&self, track_key: &str) -> (r: bool)
        ensures
            match posicao(self.linhas(), track_key@) {
                Some(i) => r == self.linhas()[i].6,
                None => !r,
            },
    {
        match self.achar(track_key) {
            Some(i) => self.letras[i].pinned,
            None => false,
        }
    }

    /// As letras fixadas, para a lista do modo offline: por artista e depois
    /// por título, sem distinguir maiúsculas de minúsculas ASCII, e dizendo
    /// qual tem letra sincronizada.
    pub fn pinned(&self) -> (r: Vec<PinnedLyrics>)
        ensures
            r@.map_values(|p: PinnedLyrics| fixada_vista(p)) == por_nome(fixadas(self.linhas())),
    {
        let ghost s = self.linhas();
        let mut sel: Vec<PinnedLyrics> = Vec::new();
        let mut i: usize = 0;
        while i < self.letras.len()
            invariant
                i <= self.letras@.len(),
                s == self.linhas(),
                s.len() == self.letras@.len(),
                sel@.map_values(|p: PinnedLyrics| fixada_vista(p)) == fixadas(s.take(i as int)),
            decreases self.letras@.len() - i,
        {
            let ghost antes = sel@.map_values(|p: PinnedLyrics| fixada_vista(p));
            assert(s.take(i + 1).drop_last() =~= s.take(i as int));
            assert(s[i as int] == guardada_vista(self.letras@[i as int]));
            let g = &self.letras[i];
            if g.pinned {
                let p = PinnedLyrics {
                    track_key: g.track_key.clone(),
                    artist: g.artist.clone(),
                    title: g.title.clone(),
                    synced: g.lyrics.lines.len() > 0,
                };
                assert(fixada_vista(p) == (s[i as int].0, s[i as int].1, s[i as int].2, s[i as int].5.0.len() > 0));
                sel.push(p);
                assert(sel@.map_values(|p: PinnedLyrics| fixada_vista(p)) =~= antes.push(fixada_vista(p)));
            }
            i = i + 1;
        }
        assert(s.take(s.len() as int) =~= s);
        let ghost entrada = sel@.map_values(|p: PinnedLyrics| fixada_vista(p));
        let mut out: Vec<PinnedLyrics> = Vec::new();
        let mut i: usize = 0;
        while i < sel.len()
            invariant
                i <= sel@.len(),
                entrada == sel@.map_values(|p: PinnedLyrics| fixada_vista(p)),
                out@.map_values(|p: PinnedLyrics| fixada_vista(p)) == por_nome(entrada.take(i as int)),
            decreases sel@.len() - i,
        {
            let x = &sel[i];
            let ghost t = out@.map_values(|p: PinnedLyrics| fixada_vista(p));
            let mut p: usize = 0;
            while p < out.len() && nome_le_exec(&out[p], x)
                invariant
                    p <= out@.len(),
                    t == out@.map_values(|p: PinnedLyrics| fixada_vista(p)),
                    forall|k: int| 0 <= k < p ==> nome_le(#[trigger] t[k], fixada_vista(*x)),
                decreases out@.len() - p,
            {
                assert(t[p as int] == fixada_vista(out@[p as int]));
                p = p + 1;
            }
            proof {
                if p < out@.len() {
                    assert(t[p as int] == fixada_vista(out@[p as int]));
                }
                lemma_lugar_nome(t, fixada_vista(*x), p as int);
                let depois = entrada.take(i + 1);
                assert(depois.drop_last() =~= entrada.take(i as int));
                assert(depois.last() == fixada_vista(*x));
            }
            let novo = copiar_fixada(x);
            out.insert(p, novo);
            assert(out@.map_values(|p: PinnedLyrics| fixada_vista(p)) =~= t.insert(p as int, fixada_vista(novo)));
            i = i + 1;
        }
        assert(entrada.take(sel@.len() as int) =~= entrada);
        out
    }
}

} // verus!
