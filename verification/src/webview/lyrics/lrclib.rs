//! Cliente do LRCLIB — o que fazer com o que ele responde.
//!
//! Grátis, sem autenticação, com letra sincronizada. A busca exata casa por
//! assinatura da faixa; quando ela falha, a busca ampla devolve candidatos.
//! Falar com o serviço é de fora da biblioteca.

use vstd::prelude::*;

use crate::text::{chars_of, i64_chars, int_text, string_of, trim, trimmed};
use crate::webview::lyrics::{Candidate, LyricLine, Lyrics, LyricsError};

verus! {

/// O LRCLIB pede identificação honesta do cliente.
pub const USER_AGENT: &'static str = "LyricsLens/0.1.0 (https://github.com/Julio0Cesar/lyricslens)";

/// Diferença de duração que ainda aceitamos ao escolher um candidato, em
/// milissegundos. Acima disto é outra gravação — ao vivo, estendida, remix.
pub const TOLERANCIA_MS: u64 = 12000;

pub open spec fn gap(a: u64, b: u64) -> int {
    if a >= b {
        a - b
    } else {
        b - a
    }
}

/// A distância até a duração tocando; `None` quando falta uma das duas, e
/// isso conta como a maior distância possível.
pub open spec fn distancia(c: Candidate, alvo: Option<u64>) -> Option<int> {
    match (alvo, c.duration_ms) {
        (Some(t), Some(d)) => Some(gap(d, t)),
        _ => None,
    }
}

/// `a` está mais perto que `b`.
pub open spec fn mais_perto(a: Option<int>, b: Option<int>) -> bool {
    match (a, b) {
        (Some(x), Some(y)) => x < y,
        (Some(_), None) => true,
        _ => false,
    }
}

/// Com letra sincronizada e, quando dá para comparar, dentro da tolerância.
pub open spec fn elegivel(c: Candidate, alvo: Option<u64>) -> bool {
    c.has_synced && match distancia(c, alvo) {
        Some(x) => x <= TOLERANCIA_MS,
        None => true,
    }
}

/// O candidato `k` é o escolhido: elegível, nenhum elegível mais perto, e
/// nenhum elegível antes dele tão perto quanto.
pub open spec fn escolhido(cs: Seq<Candidate>, alvo: Option<u64>, k: int) -> bool {
    &&& 0 <= k < cs.len()
    &&& elegivel(cs[k], alvo)
    &&& forall|j: int|
        0 <= j < cs.len() && elegivel(#[trigger] cs[j], alvo) ==> !mais_perto(
            distancia(cs[j], alvo),
            distancia(cs[k], alvo),
        ) && (j < k ==> mais_perto(distancia(cs[k], alvo), distancia(cs[j], alvo)))
}

fn distancia_de(c: &Candidate, alvo: Option<u64>) -> (r: Option<u64>)
    ensures
        match distancia(*c, alvo) {
            Some(x) => r is Some && r->0 == x,
            None => r is None,
        },
{
    match (alvo, c.duration_ms) {
        (Some(t), Some(d)) => Some(if d >= t { d - t } else { t - d }),
        _ => None,
    }
}

fn mais_perto_exec(a: Option<u64>, b: Option<u64>) -> (r: bool)
    ensures
        r == mais_perto(
            match a {
                Some(x) => Some(x as int),
                None => None,
            },
            match b {
                Some(y) => Some(y as int),
                None => None,
            },
        ),
{
    match (a, b) {
        (Some(x), Some(y)) => x < y,
        (Some(_), None) => true,
        _ => false,
    }
}

/// A melhor alternativa entre os candidatos da busca ampla.
///
/// Letra sincronizada ganha de letra corrida sempre; entre as sincronizadas,
/// vence a duração mais próxima, a primeira entre iguais.
pub fn escolher(candidatos: &[Candidate], duration_ms: Option<u64>) -> (r: Option<&Candidate>)
    ensures
        match r {
            Some(c) => exists|k: int| escolhido(candidatos@, duration_ms, k) && *c == candidatos@[k],
            None => forall|j: int| 0 <= j < candidatos@.len() ==> !elegivel(#[trigger] candidatos@[j], duration_ms),
        },
{
    let mut pick: Option<usize> = None;
    let mut i: usize = 0;
    while i < candidatos.len()
        invariant
            i <= candidatos@.len(),
            match pick {
                Some(k) => {
                    &&& k < i
                    &&& elegivel(candidatos@[k as int], duration_ms)
                    &&& forall|j: int|
                        0 <= j < i && elegivel(#[trigger] candidatos@[j], duration_ms) ==> !mais_perto(
                            distancia(candidatos@[j], duration_ms),
                            distancia(candidatos@[k as int], duration_ms),
                        ) && (j < k ==> mais_perto(
                            distancia(candidatos@[k as int], duration_ms),
                            distancia(candidatos@[j], duration_ms),
                        ))
                },
                None => forall|j: int| 0 <= j < i ==> !elegivel(#[trigger] candidatos@[j], duration_ms),
            },
        decreases candidatos@.len() - i,
    {
        let c = &candidatos[i];
        let d = distancia_de(c, duration_ms);
        let dentro = match d {
            Some(x) => x <= TOLERANCIA_MS,
            None => true,
        };
        if c.has_synced && dentro {
            let melhor = match pick {
                None => true,
                Some(k) => mais_perto_exec(d, distancia_de(&candidatos[k], duration_ms)),
            };
            if melhor {
                pick = Some(i);
            }
        }
        i = i + 1;
    }
    match pick {
        Some(k) => {
            assert(escolhido(candidatos@, duration_ms, k as int));
            Some(&candidatos[k])
        },
        None => None,
    }
}

/// Texto que não é só espaço.
pub open spec fn util(s: Seq<char>) -> bool {
    trim(s).len() > 0
}

/// O candidato tem letra sincronizada de verdade.
pub fn tem_sincronia(synced: &Option<String>) -> (r: bool)
    ensures
        r == (synced is Some && util(synced->0@)),
{
    match synced {
        Some(s) => trimmed(chars_of(s.as_str()).as_slice()).len() > 0,
        None => false,
    }
}

/// A letra que uma resposta do LRCLIB vira, dadas as linhas já lidas da
/// letra sincronizada: letra corrida só quando tem algo além de espaço, a
/// fonte marcada, e o id para reencontrar a mesma letra depois.
pub fn montar_letra(id: i64, linhas: Vec<LyricLine>, plain: Option<String>, instrumental: bool) -> (r: Lyrics)
    ensures
        r.lines@ == linhas@,
        r.plain is Some <==> (plain is Some && util(plain->0@)),
        r.plain is Some ==> r.plain->0@ == plain->0@,
        r.instrumental == instrumental,
        r.source@ == "lrclib"@,
        r.provider_id is Some && r.provider_id->0@ == int_text(id as int),
        r.translation is None,
{
    let plain = match plain {
        Some(p) => if trimmed(chars_of(p.as_str()).as_slice()).len() > 0 {
            Some(p)
        } else {
            None
        },
        None => None,
    };
    Lyrics {
        lines: linhas,
        plain,
        instrumental,
        source: string_of(chars_of("lrclib").as_slice()),
        provider_id: Some(string_of(i64_chars(id).as_slice())),
        translation: None,
    }
}

/// Letra vazia é o mesmo que não achar.
pub fn achada(lyrics: Lyrics) -> (r: Result<Lyrics, LyricsError>)
    ensures
        (lyrics.lines@.len() == 0 && lyrics.plain is None && !lyrics.instrumental) ==> r
            is Err && r->Err_0 is NotFound,
        !(lyrics.lines@.len() == 0 && lyrics.plain is None && !lyrics.instrumental) ==> r
            == Ok::<Lyrics, LyricsError>(lyrics),
{
    if lyrics.is_empty() {
        Err(LyricsError::NotFound)
    } else {
        Ok(lyrics)
    }
}

/// O próximo passo de uma busca no LRCLIB: exata primeiro; se ela não acha,
/// a busca ampla e a escolha automática; o escolhido é buscado pelo id.
#[derive(Debug)]
pub enum Passo {
    /// A busca terminou com isto.
    Fim(Result<Lyrics, LyricsError>),
    /// A exata não achou: fazer a busca ampla.
    BuscaAmpla,
    /// Buscar a letra deste candidato pelo id.
    PorId(String),
}

/// Depois da busca exata. O `/api/get` casa por assinatura completa: basta o
/// álbum vir escrito diferente, ou a duração destoar, para não achar mesmo
/// existindo a letra, e a busca ampla recupera esses casos. Falha de rede
/// não é ausência de letra: não vale insistir.
pub fn depois_da_exata(r: Result<Lyrics, LyricsError>) -> (p: Passo)
    ensures
        match r {
            Ok(l) => p == Passo::Fim(Ok(l)),
            Err(LyricsError::NotFound) => p is BuscaAmpla,
            Err(e) => p == Passo::Fim(Err(e)),
        },
{
    match r {
        Ok(l) => Passo::Fim(Ok(l)),
        Err(LyricsError::NotFound) => Passo::BuscaAmpla,
        Err(e) => Passo::Fim(Err(e)),
    }
}

/// Depois da busca ampla: o candidato que `escolher` aponta é buscado pelo
/// id; sem nenhum elegível, não achou; uma falha da busca termina nela.
pub fn depois_da_busca(r: Result<Vec<Candidate>, LyricsError>, duration_ms: Option<u64>) -> (p: Passo)
    ensures
        match r {
            Err(e) => p == Passo::Fim(Err(e)),
            Ok(cs) => {
                ||| (forall|j: int| 0 <= j < cs@.len() ==> !elegivel(#[trigger] cs@[j], duration_ms))
                    && (p matches Passo::Fim(Err(LyricsError::NotFound)))
                ||| exists|k: int|
                    escolhido(cs@, duration_ms, k) && (p matches Passo::PorId(id) && id@
                        == cs@[k].provider_id@)
            },
        },
{
    match r {
        Err(e) => Passo::Fim(Err(e)),
        Ok(cs) => match escolher(cs.as_slice(), duration_ms) {
            Some(c) => Passo::PorId(c.provider_id.clone()),
            None => Passo::Fim(Err(LyricsError::NotFound)),
        },
    }
}

/// Só um candidato pode ser o escolhido.
pub proof fn law_o_escolhido_e_unico(cs: Seq<Candidate>, alvo: Option<u64>, a: int, b: int)
    requires
        escolhido(cs, alvo, a),
        escolhido(cs, alvo, b),
    ensures
        a == b,
{
    if a < b {
        assert(elegivel(cs[a], alvo));
    } else if b < a {
        assert(elegivel(cs[b], alvo));
    }
}

/// Com uma duração para comparar, o escolhido tem letra sincronizada; se tem
/// duração, ela fica a no máximo `TOLERANCIA_MS` da que toca, para mais ou
/// para menos, e nenhum candidato sincronizado com duração dentro dessa
/// faixa está estritamente mais perto; se não tem, nenhum candidato
/// sincronizado tem duração dentro dela.
pub proof fn law_o_escolhido_e_o_mais_perto_na_tolerancia(cs: Seq<Candidate>, alvo: u64, k: int)
    requires
        escolhido(cs, Some(alvo), k),
    ensures
        cs[k].has_synced,
        cs[k].duration_ms matches Some(d) ==> {
            &&& alvo - TOLERANCIA_MS <= d <= alvo + TOLERANCIA_MS
            &&& forall|j: int|
                0 <= j < cs.len() && (#[trigger] cs[j]).has_synced && cs[j].duration_ms is Some
                    && alvo - TOLERANCIA_MS <= cs[j].duration_ms->0 <= alvo + TOLERANCIA_MS ==> (if d
                    >= alvo {
                    d - alvo
                } else {
                    alvo - d
                }) <= (if cs[j].duration_ms->0 >= alvo {
                    cs[j].duration_ms->0 - alvo
                } else {
                    alvo - cs[j].duration_ms->0
                })
        },
        cs[k].duration_ms is None ==> forall|j: int|
            0 <= j < cs.len() && (#[trigger] cs[j]).has_synced && cs[j].duration_ms is Some ==> !(alvo
                - TOLERANCIA_MS <= cs[j].duration_ms->0 <= alvo + TOLERANCIA_MS),
{
    assert forall|j: int|
        0 <= j < cs.len() && (#[trigger] cs[j]).has_synced && cs[j].duration_ms is Some && alvo
            - TOLERANCIA_MS <= cs[j].duration_ms->0 <= alvo + TOLERANCIA_MS implies elegivel(
        cs[j],
        Some(alvo),
    ) by {}
}

} // verus!
