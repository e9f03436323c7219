//! Limpeza de título e artista antes da busca.
//!
//! Streaming entrega metadado limpo. YouTube entrega o que o uploader digitou:
//! `Musica | HD Ao Vivo`, `[Official Music Video]`, `(Lyrics)`, o canal no lugar
//! do artista. Sem isto a busca exata erra em quase todo vídeo.

use vstd::prelude::*;

use crate::text::{
    find_from, index_of_from,
    byte_offset, char_boundary, chars_of, contains, contains_chars, ends_with, ends_with_chars,
    extend, find, find_boundary, find_chars, index_of, index_of_char, lowercase, slice_vec,
    squeeze, squeezed, string_of, strip_leading, strip_leading_chars, strip_trailing,
    strip_trailing_chars, trim, trimmed, unicode_lowercase, utf8_len,
};

verus! {

// ---------------------------------------------------------------------------
// Ruído
// ---------------------------------------------------------------------------

/// Um texto já em caixa baixa que cita algum ruído conhecido: coisa que
/// aparece entre parênteses ou colchetes e não faz parte do nome.
pub open spec fn cites_noise(t: Seq<char>) -> bool {
    ||| contains(t, "official video"@)
    ||| contains(t, "official music video"@)
    ||| contains(t, "official audio"@)
    ||| contains(t, "official lyric video"@)
    ||| contains(t, "official visualizer"@)
    ||| contains(t, "music video"@)
    ||| contains(t, "lyric video"@)
    ||| contains(t, "lyrics"@)
    ||| contains(t, "letra"@)
    ||| contains(t, "legendado"@)
    ||| contains(t, "tradução"@)
    ||| contains(t, "audio"@)
    ||| contains(t, "áudio"@)
    ||| contains(t, "hd"@)
    ||| contains(t, "hq"@)
    ||| contains(t, "4k"@)
    ||| contains(t, "8k"@)
    ||| contains(t, "1080p"@)
    ||| contains(t, "720p"@)
    ||| contains(t, "full hd"@)
    ||| contains(t, "clipe oficial"@)
    ||| contains(t, "video oficial"@)
    ||| contains(t, "vídeo oficial"@)
    ||| contains(t, "visualizer"@)
    ||| contains(t, "explicit"@)
    ||| contains(t, "clean"@)
    ||| contains(t, "free download"@)
}

/// Vazio, ou só decoração.
pub open spec fn is_noise(texto: Seq<char>) -> bool {
    let t = unicode_lowercase(trim(texto));
    t.len() == 0 || cites_noise(t)
}

fn has(t: &[char], w: &str) -> (r: bool)
    ensures
        r == contains(t@, w@),
{
    contains_chars(t, chars_of(w).as_slice())
}

fn cites_noise_chars(t: &[char]) -> (r: bool)
    ensures
        r == cites_noise(t@),
{
    has(t, "official video") || has(t, "official music video") || has(t, "official audio") || has(
        t,
        "official lyric video",
    ) || has(t, "official visualizer") || has(t, "music video") || has(t, "lyric video") || has(
        t,
        "lyrics",
    ) || has(t, "letra") || has(t, "legendado") || has(t, "tradução") || has(t, "audio") || has(
        t,
        "áudio",
    ) || has(t, "hd") || has(t, "hq") || has(t, "4k") || has(t, "8k") || has(t, "1080p") || has(
        t,
        "720p",
    ) || has(t, "full hd") || has(t, "clipe oficial") || has(t, "video oficial") || has(
        t,
        "vídeo oficial",
    ) || has(t, "visualizer") || has(t, "explicit") || has(t, "clean") || has(t, "free download")
}

fn e_ruido(texto: &[char]) -> (r: bool)
    ensures
        r == is_noise(texto@),
{
    let t = lowercase(trimmed(texto).as_slice());
    t.len() == 0 || cites_noise_chars(t.as_slice())
}

// ---------------------------------------------------------------------------
// Os passos da limpeza
// ---------------------------------------------------------------------------

/// Sufixo separado por barra vertical que é só decoração: `Musica | HD`.
pub open spec fn without_bar_suffix(s: Seq<char>) -> Seq<char> {
    match index_of(s, '|') {
        Some(k) => if is_noise(s.skip(k + 1)) {
            trim(s.take(k))
        } else {
            s
        },
        None => s,
    }
}

fn tira_sufixo_barra(s: &[char]) -> (r: Vec<char>)
    ensures
        r@ == without_bar_suffix(s@),
{
    match index_of_char(s, '|', 0) {
        Some(k) => {
            proof {
                crate::text::lemma_index_of_from(s@, '|', 0);
                assert(index_of_from(s@, '|', 0) == Some(k as int));
                assert(k < s@.len());
            }
            let n = s.len();
            let depois = slice_vec(s, k + 1, n);
            assert(depois@ =~= s@.skip(k + 1));
            if e_ruido(depois.as_slice()) {
                let antes = slice_vec(s, 0, k);
                assert(antes@ =~= s@.take(k as int));
                trimmed(antes.as_slice())
            } else {
                slice_vec_all(s)
            }
        },
        None => slice_vec_all(s),
    }
}

fn slice_vec_all(s: &[char]) -> (r: Vec<char>)
    ensures
        r@ == s@,
{
    let r = slice_vec(s, 0, s.len());
    assert(r@ =~= s@);
    r
}

/// O caractere que abre um bloco fechado por `fim`.
pub open spec fn opener(fim: char) -> char {
    if fim == ')' {
        '('
    } else {
        '['
    }
}

/// Lendo da esquerda para a direita: o que já saiu, o bloco em aberto e o
/// caractere que o fecha, quando há um bloco aberto.
pub open spec fn blocks_state(s: Seq<char>) -> (Seq<char>, Seq<char>, Option<char>)
    decreases s.len(),
{
    if s.len() == 0 {
        (Seq::empty(), Seq::empty(), None)
    } else {
        let (out, buffer, fechamento) = blocks_state(s.drop_last());
        let c = s.last();
        match fechamento {
            None => if c == '(' {
                (out, buffer, Some(')'))
            } else if c == '[' {
                (out, buffer, Some(']'))
            } else {
                (out.push(c), buffer, None)
            },
            Some(fim) => if c == fim {
                if is_noise(buffer) {
                    (out, Seq::empty(), None)
                } else {
                    (out.push(opener(fim)) + buffer + seq![fim], Seq::empty(), None)
                }
            } else {
                (out, buffer.push(c), Some(fim))
            },
        }
    }
}

/// Sem os blocos entre `()` ou `[]` cujo conteúdo é ruído. Blocos com
/// conteúdo útil — `(Remastered 2011)`, `(Acoustic)` — ficam; um bloco aberto
/// e nunca fechado volta como texto, sem o parêntese.
pub open spec fn without_noise_blocks(s: Seq<char>) -> Seq<char> {
    let (out, buffer, fechamento) = blocks_state(s);
    if fechamento is Some && buffer.len() > 0 {
        out + buffer
    } else {
        out
    }
}

fn tira_blocos(s: &[char]) -> (r: Vec<char>)
    ensures
        r@ == without_noise_blocks(s@),
{
    let mut saida: Vec<char> = Vec::new();
    let mut buffer: Vec<char> = Vec::new();
    let mut fechamento: Option<char> = None;
    let mut i: usize = 0;
    while i < s.len()
        invariant
            i <= s@.len(),
            (saida@, buffer@, fechamento) == blocks_state(s@.take(i as int)),
        decreases s@.len() - i,
    {
        let c = s[i];
        proof {
            assert(s@.take(i + 1).drop_last() =~= s@.take(i as int));
        }
        match fechamento {
            None => {
                if c == '(' {
                    fechamento = Some(')');
                } else if c == '[' {
                    fechamento = Some(']');
                } else {
                    saida.push(c);
                }
            },
            Some(fim) => {
                if c == fim {
                    if !e_ruido(buffer.as_slice()) {
                        saida.push(if fim == ')' { '(' } else { '[' });
                        extend(&mut saida, buffer.as_slice());
                        saida.push(fim);
                    }
                    buffer = Vec::new();
                    fechamento = None;
                } else {
                    buffer.push(c);
                }
            },
        }
        i = i + 1;
    }
    assert(s@.take(s@.len() as int) =~= s@);
    if fechamento.is_some() && buffer.len() > 0 {
        extend(&mut saida, buffer.as_slice());
    }
    saida
}

/// Onde, em bytes do texto em caixa baixa, começa a primeira marca de
/// participação, tentando as marcas nesta ordem.
pub open spec fn feat_byte(baixo: Seq<char>) -> Option<int> {
    match find(baixo, " feat."@) {
        Some(j) => Some(utf8_len(baixo.take(j))),
        None => match find(baixo, " feat "@) {
            Some(j) => Some(utf8_len(baixo.take(j))),
            None => match find(baixo, " ft."@) {
                Some(j) => Some(utf8_len(baixo.take(j))),
                None => match find(baixo, " ft "@) {
                    Some(j) => Some(utf8_len(baixo.take(j))),
                    None => match find(baixo, " featuring "@) {
                        Some(j) => Some(utf8_len(baixo.take(j))),
                        None => None,
                    },
                },
            },
        },
    }
}

/// O corte acha a marca no texto em caixa baixa e corta o texto recebido no
/// mesmo byte. Quando a caixa baixa muda o tamanho de algum caractere antes da
/// marca, esse byte pode cair no meio de um caractere do texto recebido: aí
/// não há corte possível.
pub open spec fn feat_cut_fits(s: Seq<char>) -> bool {
    match feat_byte(unicode_lowercase(s)) {
        Some(b) => char_boundary(s, b) is Some,
        None => true,
    }
}

/// `feat.`/`ft.` no título atrapalha a busca — o artista convidado raramente
/// está no registro da letra. Corta da marca em diante.
pub open spec fn without_featuring(s: Seq<char>) -> Seq<char> {
    match feat_byte(unicode_lowercase(s)) {
        Some(b) => match char_boundary(s, b) {
            Some(k) => s.take(k),
            None => s,
        },
        None => s,
    }
}

fn marca_em(baixo: &[char], marca: &str) -> (r: Option<u128>)
    ensures
        match find(baixo@, marca@) {
            Some(j) => r is Some && r->0 == utf8_len(baixo@.take(j)),
            None => r is None,
        },
{
    match find_chars(baixo, chars_of(marca).as_slice()) {
        Some(j) => {
            proof {
                crate::text::lemma_find_from(baixo@, marca@, 0);
            }
            Some(byte_offset(baixo, j))
        },
        None => None,
    }
}

/// `None` quando o corte cairia no meio de um caractere.
fn tira_participacao(s: &[char]) -> (r: Option<Vec<char>>)
    ensures
        r is Some <==> feat_cut_fits(s@),
        r is Some ==> r->0@ == without_featuring(s@),
{
    let baixo = lowercase(s);
    let b = match marca_em(baixo.as_slice(), " feat.") {
        Some(b) => Some(b),
        None => match marca_em(baixo.as_slice(), " feat ") {
            Some(b) => Some(b),
            None => match marca_em(baixo.as_slice(), " ft.") {
                Some(b) => Some(b),
                None => match marca_em(baixo.as_slice(), " ft ") {
                    Some(b) => Some(b),
                    None => marca_em(baixo.as_slice(), " featuring "),
                },
            },
        },
    };
    assert(match feat_byte(baixo@) {
        Some(x) => b is Some && b->0 == x,
        None => b is None,
    });
    match b {
        Some(b) => {
            match find_boundary(s, b) {
                Some(k) => {
                    let r = slice_vec(s, 0, k);
                    assert(r@ =~= s@.take(k as int));
                    Some(r)
                },
                None => None,
            }
        },
        None => Some(slice_vec_all(s)),
    }
}

/// Sem os `-` das pontas.
pub open spec fn trim_dashes(s: Seq<char>) -> Seq<char> {
    strip_trailing(strip_leading(s, '-'), '-')
}

/// A limpeza toda de um campo.
pub open spec fn cleaned(s: Seq<char>) -> Seq<char> {
    let s = without_featuring(without_noise_blocks(without_bar_suffix(s)));
    squeeze(trim(trim_dashes(trim(s))))
}

/// A limpeza de `s` não corta nenhum caractere ao meio.
pub open spec fn cleanable(s: Seq<char>) -> bool {
    feat_cut_fits(without_noise_blocks(without_bar_suffix(s)))
}

fn limpa(s: &[char]) -> (r: Option<Vec<char>>)
    ensures
        r is Some <==> cleanable(s@),
        r is Some ==> r->0@ == cleaned(s@),
{
    let s1 = tira_sufixo_barra(s);
    let s2 = tira_blocos(s1.as_slice());
    match tira_participacao(s2.as_slice()) {
        Some(s3) => {
            let t = trimmed(s3.as_slice());
            let d = strip_trailing_chars(strip_leading_chars(t.as_slice(), '-').as_slice(), '-');
            let t2 = trimmed(d.as_slice());
            Some(squeezed(t2.as_slice()))
        },
        None => None,
    }
}

// ---------------------------------------------------------------------------
// Artista e título
// ---------------------------------------------------------------------------

/// `Marisa Monte - Topic` → `Marisa Monte`: sem o sufixo de canal, tentando
/// os sufixos nesta ordem.
pub open spec fn without_channel(artist: Seq<char>) -> Seq<char> {
    let a = trim(artist);
    if ends_with(a, " - Topic"@) {
        trim(a.take(a.len() - " - Topic"@.len()))
    } else if ends_with(a, "VEVO"@) {
        trim(a.take(a.len() - "VEVO"@.len()))
    } else if ends_with(a, " Official"@) {
        trim(a.take(a.len() - " Official"@.len()))
    } else if ends_with(a, "Official"@) {
        trim(a.take(a.len() - "Official"@.len()))
    } else {
        a
    }
}

fn sem_sufixo(a: &[char], sufixo: &str) -> (r: Option<Vec<char>>)
    ensures
        ends_with(a@, sufixo@) ==> r is Some && r->0@ == trim(a@.take(a@.len() - sufixo@.len())),
        !ends_with(a@, sufixo@) ==> r is None,
{
    let suf = chars_of(sufixo);
    if ends_with_chars(a, suf.as_slice()) {
        let base = slice_vec(a, 0, a.len() - suf.len());
        assert(base@ =~= a@.take(a@.len() - sufixo@.len()));
        Some(trimmed(base.as_slice()))
    } else {
        None
    }
}

fn desnudar_canal(artist: &[char]) -> (r: Vec<char>)
    ensures
        r@ == without_channel(artist@),
{
    let a = trimmed(artist);
    if let Some(b) = sem_sufixo(a.as_slice(), " - Topic") {
        return b;
    }
    if let Some(b) = sem_sufixo(a.as_slice(), "VEVO") {
        return b;
    }
    if let Some(b) = sem_sufixo(a.as_slice(), " Official") {
        return b;
    }
    if let Some(b) = sem_sufixo(a.as_slice(), "Official") {
        return b;
    }
    a
}

/// O "artista" tem cara de nome de canal.
pub open spec fn looks_like_channel(artist: Seq<char>) -> bool {
    let a = unicode_lowercase(artist);
    ends_with(a, "- topic"@) || contains(a, "vevo"@) || contains(a, "records"@) || contains(
        a,
        "channel"@,
    )
}

fn parece_canal(artist: &[char]) -> (r: bool)
    ensures
        r == looks_like_channel(artist@),
{
    let a = lowercase(artist);
    ends_with_chars(a.as_slice(), chars_of("- topic").as_slice()) || has(a.as_slice(), "vevo")
        || has(a.as_slice(), "records") || has(a.as_slice(), "channel")
}

/// `Artista - Música` → `("Artista", "Música")`. Só o primeiro hífen conta, e
/// os dois lados precisam sobrar.
pub open spec fn split_dash(titulo: Seq<char>) -> Option<(Seq<char>, Seq<char>)> {
    match find(titulo, " - "@) {
        Some(i) => {
            let a = trim(titulo.take(i));
            let t = trim(titulo.skip(i + " - "@.len()));
            if a.len() > 0 && t.len() > 0 {
                Some((a, t))
            } else {
                None
            }
        },
        None => None,
    }
}

fn separar_hifen(titulo: &[char]) -> (r: Option<(Vec<char>, Vec<char>)>)
    ensures
        match split_dash(titulo@) {
            Some((a, t)) => r is Some && r.unwrap().0@ == a && r.unwrap().1@ == t,
            None => r is None,
        },
{
    let sep = chars_of(" - ");
    assert(sep@ == " - "@);
    match find_chars(titulo, sep.as_slice()) {
        Some(i) => {
            proof {
                crate::text::lemma_find_from(titulo@, " - "@, 0);
                assert(find_from(titulo@, " - "@, 0) == Some(i as int));
                assert(i + sep@.len() <= titulo@.len());
            }
            let antes = slice_vec(titulo, 0, i);
            assert(antes@ =~= titulo@.take(i as int));
            let n = titulo.len();
            let depois = slice_vec(titulo, i + sep.len(), n);
            assert(depois@ =~= titulo@.skip(i + " - "@.len()));
            let a = trimmed(antes.as_slice());
            let t = trimmed(depois.as_slice());
            if a.len() > 0 && t.len() > 0 {
                Some((a, t))
            } else {
                None
            }
        },
        None => None,
    }
}

#[derive(Debug, Clone, PartialEq, Eq)]
pub struct Consulta {
    pub artist: String,
    pub title: String,
}

/// A consulta que sai do que o player informou: artista e título.
///
/// Quando o título traz `Artista - Música` e o artista informado é vazio ou o
/// canal (`... - Topic`, `VEVO`), o que está no título vale mais.
pub open spec fn query_of(artist: Seq<char>, title: Seq<char>) -> (Seq<char>, Seq<char>) {
    let artista_limpo = cleaned(without_channel(artist));
    let titulo_limpo = cleaned(title);
    match split_dash(titulo_limpo) {
        Some((a, t)) => if artista_limpo.len() == 0 || looks_like_channel(artist) {
            (a, t)
        } else {
            (artista_limpo, titulo_limpo)
        },
        None => (artista_limpo, titulo_limpo),
    }
}

/// Nenhum dos dois campos tem um corte de participação no meio de um
/// caractere.
pub open spec fn query_fits(artist: Seq<char>, title: Seq<char>) -> bool {
    cleanable(without_channel(artist)) && cleanable(title)
}

/// Constrói a consulta a partir do que o player informou, ou `None` quando a
/// participação cortaria um caractere ao meio (ver `feat_cut_fits`).
pub fn preparar_se_cabe(artist: &str, title: &str) -> (r: Option<Consulta>)
    ensures
        r is Some <==> query_fits(artist@, title@),
        r is Some ==> (r->0.artist@, r->0.title@) == query_of(artist@, title@),
{
    let bruto = chars_of(artist);
    let artista = match limpa(desnudar_canal(bruto.as_slice()).as_slice()) {
        Some(a) => a,
        None => return None,
    };
    let titulo = match limpa(chars_of(title).as_slice()) {
        Some(t) => t,
        None => return None,
    };
    if let Some((a, t)) = separar_hifen(titulo.as_slice()) {
        if artista.len() == 0 || parece_canal(bruto.as_slice()) {
            return Some(
                Consulta { artist: string_of(a.as_slice()), title: string_of(t.as_slice()) },
            );
        }
    }
    Some(Consulta { artist: string_of(artista.as_slice()), title: string_of(titulo.as_slice()) })
}

/// Constrói a consulta a partir do que o player informou.
pub fn preparar(artist: &str, title: &str) -> (c: Consulta)
    requires
        query_fits(artist@, title@),
    ensures
        (c.artist@, c.title@) == query_of(artist@, title@),
{
    match preparar_se_cabe(artist, title) {
        Some(c) => c,
        None => Consulta { artist: String::new(), title: String::new() },
    }
}

} // verus!
