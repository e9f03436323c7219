//! Um LRCLIB de mentira, para testar o cliente sem rede: as regras dele.
//!
//! Cada pedido é lido pela primeira linha, a rota é escolhida pelo prefixo
//! mais longo, e a resposta é HTTP/1.1 que fecha a conexão. Escutar a porta é
//! de fora da biblioteca.

use vstd::prelude::*;

use crate::lyrics::lrc::strip_cr;
use crate::text::{
    byte_offset, decimal_chars_wide, utf8_len,
    chars_of, decimal, decimal_chars, extend, index_of, index_of_char, pieces_view, slice_vec,
    starts_with, starts_with_chars, string_of, words, words_of,
};

verus! {

/// O que o servidor devolve numa rota.
#[derive(Clone, Debug, PartialEq, Eq)]
pub struct Resposta {
    pub status: u16,
    pub corpo: String,
}

impl Resposta {
    /// Um corpo JSON, com 200.
    pub fn json(corpo: String) -> (r: Self)
        ensures
            r.status == 200,
            r.corpo == corpo,
    {
        Resposta { status: 200, corpo }
    }

    /// Só o status, sem corpo.
    pub fn status(status: u16) -> (r: Self)
        ensures
            r.status == status,
            r.corpo@ == Seq::<char>::empty(),
    {
        Resposta { status, corpo: String::new() }
    }
}

/// A primeira linha do texto, como `str::lines` a daria.
pub open spec fn first_line(s: Seq<char>) -> Option<Seq<char>> {
    if s.len() == 0 {
        None
    } else {
        match index_of(s, '\n') {
            Some(k) => Some(strip_cr(s.take(k))),
            None => Some(s),
        }
    }
}

/// O caminho pedido: a segunda palavra da primeira linha (`GET /api/get
/// HTTP/1.1`), ou `/`.
pub open spec fn request_path(pedido: Seq<char>) -> Seq<char> {
    match first_line(pedido) {
        Some(l) => if words(l).len() > 1 {
            words(l)[1]
        } else {
            "/"@
        },
        None => "/"@,
    }
}

pub fn caminho_do_pedido(pedido: &str) -> (r: String)
    ensures
        r@ == request_path(pedido@),
{
    let s = chars_of(pedido);
    if s.len() == 0 {
        return string_of(chars_of("/").as_slice());
    }
    let linha = match index_of_char(s.as_slice(), '\n', 0) {
        Some(k) => {
            proof {
                crate::text::lemma_index_of_from(s@, '\n', 0);
            }
            let mut l = slice_vec(s.as_slice(), 0, k);
            assert(l@ =~= s@.take(k as int));
            if l.len() > 0 && l[l.len() - 1] == '\r' {
                l.pop();
            }
            l
        },
        None => s,
    };
    let ws = words_of(linha.as_slice());
    if ws.len() > 1 {
        assert(pieces_view(ws@)[1] == ws@[1]@);
        string_of(ws[1].as_slice())
    } else {
        string_of(chars_of("/").as_slice())
    }
}

/// A rota que atende `caminho`: a de prefixo mais longo (a última entre
/// iguais), ou nenhuma.
pub open spec fn route_for(rotas: Seq<(String, Resposta)>, caminho: Seq<char>, k: int) -> bool {
    &&& 0 <= k < rotas.len()
    &&& starts_with(caminho, rotas[k].0@)
    &&& forall|j: int|
        0 <= j < rotas.len() && starts_with(caminho, (#[trigger] rotas[j]).0@) ==> rotas[j].0@.len()
            <= rotas[k].0@.len() && (j > k ==> rotas[j].0@.len() < rotas[k].0@.len())
}

/// Responde conforme as rotas: o prefixo mais longo ganha, e caminho não
/// declarado devolve 404, que é o que o LRCLIB faz.
pub fn rota(rotas: &[(String, Resposta)], caminho: &str) -> (r: Resposta)
    ensures
        (exists|k: int| route_for(rotas@, caminho@, k) && r == rotas@[k].1) || ((forall|j: int|
            0 <= j < rotas@.len() ==> !starts_with(caminho@, (#[trigger] rotas@[j]).0@))
            && r.status == 404 && r.corpo@.len() == 0),
{
    let c = chars_of(caminho);
    let mut pick: Option<usize> = None;
    let mut i: usize = 0;
    while i < rotas.len()
        invariant
            i <= rotas@.len(),
            c@ == caminho@,
            match pick {
                Some(k) => k < i && starts_with(caminho@, rotas@[k as int].0@) && forall|j: int|
                    0 <= j < i && starts_with(caminho@, (#[trigger] rotas@[j]).0@) ==> rotas@[j].0@.len()
                        <= rotas@[k as int].0@.len() && (j > k ==> rotas@[j].0@.len()
                        < rotas@[k as int].0@.len()),
                None => forall|j: int| 0 <= j < i ==> !starts_with(caminho@, (#[trigger] rotas@[j]).0@),
            },
        decreases rotas@.len() - i,
    {
        let prefixo = chars_of(rotas[i].0.as_str());
        if starts_with_chars(c.as_slice(), prefixo.as_slice()) {
            let melhor = match pick {
                None => true,
                Some(k) => prefixo.len() >= rotas[k].0.unicode_len(),
            };
            if melhor {
                pick = Some(i);
            }
        }
        i = i + 1;
    }
    match pick {
        Some(k) => {
            assert(route_for(rotas@, caminho@, k as int));
            Resposta { status: rotas[k].1.status, corpo: rotas[k].1.corpo.clone() }
        },
        None => Resposta::status(404),
    }
}

/// A resposta HTTP/1.1 inteira, com o tamanho do corpo em bytes de UTF-8.
pub open spec fn http_text(r: Resposta) -> Seq<char> {
    "HTTP/1.1 "@ + decimal(r.status as nat) + " OK\r\nContent-Type: application/json\r\nContent-Length: "@
        + decimal(utf8_len(r.corpo@) as nat) + "\r\nConnection: close\r\n\r\n"@ + r.corpo@
}

pub fn resposta_http(r: &Resposta) -> (t: String)
    ensures
        t@ == http_text(*r),
{
    let mut out = chars_of("HTTP/1.1 ");
    extend(&mut out, decimal_chars(r.status as u64).as_slice());
    extend(&mut out, chars_of(" OK\r\nContent-Type: application/json\r\nContent-Length: ").as_slice());
    let corpo = chars_of(r.corpo.as_str());
    let n = byte_offset(corpo.as_slice(), corpo.len());
    assert(corpo@.take(corpo@.len() as int) =~= corpo@);
    extend(&mut out, decimal_chars_wide(n).as_slice());
    extend(&mut out, chars_of("\r\nConnection: close\r\n\r\n").as_slice());
    extend(&mut out, chars_of(r.corpo.as_str()).as_slice());
    string_of(out.as_slice())
}

/// Alguma requisição bateu num caminho que começa assim?
pub fn pediu(pedidos: &[String], prefixo: &str) -> (r: bool)
    ensures
        r == exists|i: int| 0 <= i < pedidos@.len() && starts_with((#[trigger] pedidos@[i])@, prefixo@),
{
    let p = chars_of(prefixo);
    let mut i: usize = 0;
    while i < pedidos.len()
        invariant
            i <= pedidos@.len(),
            p@ == prefixo@,
            forall|j: int| 0 <= j < i ==> !starts_with((#[trigger] pedidos@[j])@, prefixo@),
        decreases pedidos@.len() - i,
    {
        if starts_with_chars(chars_of(pedidos[i].as_str()).as_slice(), p.as_slice()) {
            return true;
        }
        i = i + 1;
    }
    false
}

} // verus!
