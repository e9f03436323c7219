//! Um player MPRIS de mentira: o que ele publica, e como se descobre se o
//! barramento tem mais alguém. Publicar no D-Bus é de fora da biblioteca.

use vstd::prelude::*;

use crate::text::{chars_of, contains, contains_chars, starts_with, starts_with_chars, string_of};

verus! {

/// O estado que o player de mentira publica.
#[derive(Clone, Debug)]
pub struct Estado {
    pub titulo: String,
    pub artista: String,
    pub album: String,
    pub duracao_us: i64,
    pub posicao_us: i64,
    pub status: String,
}

impl Default for Estado {
    fn default() -> (r: Self)
        ensures
            r.titulo@ == "Creep"@,
            r.artista@ == "Radiohead"@,
            r.album@ == "Pablo Honey"@,
            r.duracao_us == 238_000_000,
            r.posicao_us == 0,
            r.status@ == "Playing"@,
    {
        Estado {
            titulo: string_of(chars_of("Creep").as_slice()),
            artista: string_of(chars_of("Radiohead").as_slice()),
            album: string_of(chars_of("Pablo Honey").as_slice()),
            duracao_us: 238_000_000,
            posicao_us: 0,
            status: string_of(chars_of("Playing").as_slice()),
        }
    }
}

/// Um player MPRIS que não é dos nossos.
pub open spec fn alheio(nome: Seq<char>, nosso_prefixo: Seq<char>) -> bool {
    starts_with(nome, "org.mpris.MediaPlayer2."@) && !contains(nome, nosso_prefixo)
}

/// Os outros players MPRIS no barramento além dos nossos, na ordem em que o
/// barramento os deu; `None` quando não há nenhum.
pub fn alheios(nomes: &[String], nosso_prefixo: &str) -> (r: Option<Vec<String>>)
    ensures
        match r {
            Some(v) => v@.len() > 0 && v@.map_values(|s: String| s@) == nomes@.map_values(|s: String| s@).filter(
                |n: Seq<char>| alheio(n, nosso_prefixo@),
            ),
            None => forall|i: int| 0 <= i < nomes@.len() ==> !alheio((#[trigger] nomes@[i])@, nosso_prefixo@),
        },
{
    let prefixo = chars_of("org.mpris.MediaPlayer2.");
    let nosso = chars_of(nosso_prefixo);
    let ghost todos = nomes@.map_values(|s: String| s@);
    let ghost p = |n: Seq<char>| alheio(n, nosso_prefixo@);
    let mut out: Vec<String> = Vec::new();
    let mut i: usize = 0;
    while i < nomes.len()
        invariant
            i <= nomes@.len(),
            prefixo@ == "org.mpris.MediaPlayer2."@,
            nosso@ == nosso_prefixo@,
            todos == nomes@.map_values(|s: String| s@),
            p == (|n: Seq<char>| alheio(n, nosso_prefixo@)),
            out@.map_values(|s: String| s@) == todos.take(i as int).filter(p),
            out@.len() == 0 ==> forall|j: int| 0 <= j < i ==> !alheio((#[trigger] nomes@[j])@, nosso_prefixo@),
        decreases nomes@.len() - i,
    {
        let n = chars_of(nomes[i].as_str());
        let ghost antes = out@.map_values(|s: String| s@);
        proof {
            assert(todos.take(i + 1).drop_last() =~= todos.take(i as int));
            assert(todos.take(i + 1).last() == nomes@[i as int]@);
            reveal(Seq::filter);
        }
        if starts_with_chars(n.as_slice(), prefixo.as_slice()) && !contains_chars(n.as_slice(), nosso.as_slice()) {
            out.push(string_of(n.as_slice()));
            assert(out@.map_values(|s: String| s@) =~= antes.push(nomes@[i as int]@));
        } else {
            assert(out@.map_values(|s: String| s@) =~= antes);
        }
        i = i + 1;
    }
    assert(todos.take(nomes@.len() as int) =~= todos);
    if out.len() > 0 {
        Some(out)
    } else {
        None
    }
}

} // verus!
