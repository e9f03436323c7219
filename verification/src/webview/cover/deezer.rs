//! Capa pelo Deezer: qual dos álbuns que ele devolve é o certo.
//!
//! O Deezer acerta os casos em que o iTunes devolve **outro artista** com
//! confiança, e entrega a capa em várias resoluções direto na resposta. A
//! busca em si é de fora da biblioteca.

use vstd::prelude::*;

use crate::text::{chars_of, string_of, trim, trimmed};
use crate::webview::cover::{loose_name, parecidos, Cover};

verus! {

#[derive(Debug, Clone, Default)]
pub struct Artista {
    pub name: String,
}

#[derive(Debug, Clone)]
pub struct Album {
    pub title: String,
    pub artist: Artista,
    /// A maior que o Deezer publica (1000x1000): o overlay pode ser
    /// redimensionado, e capa esticada fica borrada.
    pub cover_xl: Option<String>,
    pub cover_big: Option<String>,
}

/// A maior capa publicada, e nunca uma URL vazia.
pub open spec fn album_cover(a: Album) -> Option<Seq<char>> {
    let url = match a.cover_xl {
        Some(u) => Some(u@),
        None => match a.cover_big {
            Some(u) => Some(u@),
            None => None,
        },
    };
    match url {
        Some(u) => if u.len() > 0 {
            Some(u)
        } else {
            None
        },
        None => None,
    }
}

impl Album {
    pub fn capa(&self) -> (r: Option<&str>)
        ensures
            match album_cover(*self) {
                Some(u) => r is Some && r->0@ == u,
                None => r is None,
            },
    {
        let url = match &self.cover_xl {
            Some(u) => Some(u.as_str()),
            None => match &self.cover_big {
                Some(u) => Some(u.as_str()),
                None => None,
            },
        };
        match url {
            Some(u) => if u.unicode_len() > 0 {
                Some(u)
            } else {
                None
            },
            None => None,
        }
    }
}

/// O primeiro, de `i` em diante, do artista certo e com o título que casa.
pub open spec fn first_exact(albuns: Seq<Album>, artist: Seq<char>, album: Seq<char>, i: int) -> Option<int>
    decreases albuns.len() - i,
{
    if i < 0 || i >= albuns.len() {
        None
    } else if loose_name(albuns[i].artist.name@) == loose_name(artist) && loose_name(
        albuns[i].title@,
    ) == loose_name(album) {
        Some(i)
    } else {
        first_exact(albuns, artist, album, i + 1)
    }
}

/// O primeiro, de `i` em diante, do artista certo.
pub open spec fn first_of_artist(albuns: Seq<Album>, artist: Seq<char>, i: int) -> Option<int>
    decreases albuns.len() - i,
{
    if i < 0 || i >= albuns.len() {
        None
    } else if loose_name(albuns[i].artist.name@) == loose_name(artist) {
        Some(i)
    } else {
        first_of_artist(albuns, artist, i + 1)
    }
}

/// **Artista tem que bater.** Entre os do artista certo, o título exato
/// ganha; se nenhum bate, o primeiro dele, porque o serviço já ordena por
/// relevância.
pub open spec fn chosen(albuns: Seq<Album>, artist: Seq<char>, album: Seq<char>) -> Option<int> {
    match first_exact(albuns, artist, album, 0) {
        Some(i) => Some(i),
        None => first_of_artist(albuns, artist, 0),
    }
}

/// O álbum certo entre os resultados.
pub fn escolher<'a>(albuns: &'a [Album], artist: &str, album: &str) -> (r: Option<&'a Album>)
    ensures
        match chosen(albuns@, artist@, album@) {
            Some(i) => r is Some && *r->0 == albuns@[i],
            None => r is None,
        },
{
    let mut primeiro: Option<usize> = None;
    let mut i: usize = 0;
    while i < albuns.len()
        invariant
            i <= albuns@.len(),
            first_exact(albuns@, artist@, album@, 0) == first_exact(albuns@, artist@, album@, i as int),
            match primeiro {
                Some(k) => first_of_artist(albuns@, artist@, 0) == Some(k as int) && k < i,
                None => first_of_artist(albuns@, artist@, 0) == first_of_artist(albuns@, artist@, i as int),
            },
        decreases albuns@.len() - i,
    {
        let a = &albuns[i];
        if parecidos(a.artist.name.as_str(), artist) {
            if parecidos(a.title.as_str(), album) {
                return Some(a);
            }
            if primeiro.is_none() {
                primeiro = Some(i);
            }
        }
        i = i + 1;
    }
    match primeiro {
        Some(k) => Some(&albuns[k]),
        None => None,
    }
}

/// A capa, quando o álbum certo tem uma.
pub open spec fn deezer_cover(albuns: Seq<Album>, artist: Seq<char>, album: Seq<char>) -> Option<Seq<char>> {
    match chosen(albuns, artist, album) {
        Some(i) => album_cover(albuns[i]),
        None => None,
    }
}

/// Sem artista ou sem álbum não há o que buscar: nem se vai à rede.
pub fn vale_buscar(artist: &str, album: &str) -> (r: bool)
    ensures
        r == (trim(artist@).len() > 0 && trim(album@).len() > 0),
{
    trimmed(chars_of(artist).as_slice()).len() > 0 && trimmed(chars_of(album).as_slice()).len() > 0
}

/// O que a busca no Deezer entrega, dados os álbuns que ele devolveu.
pub fn capa_dos_resultados(albuns: &[Album], artist: &str, album: &str) -> (r: Option<Cover>)
    ensures
        match deezer_cover(albuns@, artist@, album@) {
            Some(u) => r is Some && r->0.url@ == u && r->0.source@ == "deezer"@,
            None => r is None,
        },
{
    match escolher(albuns, artist, album) {
        Some(a) => match a.capa() {
            Some(url) => Some(
                Cover {
                    url: string_of(chars_of(url).as_slice()),
                    source: string_of(chars_of("deezer").as_slice()),
                },
            ),
            None => None,
        },
        None => None,
    }
}

} // verus!
