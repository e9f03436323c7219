//! O que cada compositor sabe fazer.
//!
//! Em Wayland a janela não decide onde fica nem se fica por cima — quem decide
//! é o compositor, e cada um fala um protocolo próprio. Um compositor novo é
//! uma implementação nova de [`Compositor`], não uma mudança no app.
//!
//! Quando nenhum é reconhecido, o [`Nenhum`] responde honestamente — `None`
//! para toda consulta e `false` em `sabe_posicionar`.

pub mod hyprland;
pub mod sway;

use vstd::prelude::*;

use crate::text::{chars_of, string_of};
use crate::webview::i18n::UiError;

verus! {

/// Como a janela do overlay é identificada em qualquer compositor.
pub const TITULO: &'static str = "LyricsLens Overlay";

/// Como a **camada** do overlay é identificada: uma layer surface não tem
/// título, tem o namespace declarado na criação da superfície.
pub const NAMESPACE: &'static str = "lyricslens";

pub trait Compositor {
    fn nome(&self) -> &'static str;

    /// Este compositor sabe pôr a janela onde o app pede? `false` não é falha —
    /// é a resposta honesta que a interface precisa para não prometer o que
    /// não pode cumprir.
    fn sabe_posicionar(&self) -> (r: bool)
        default_ensures
            r,
    {
        true
    }

    /// Flutuar, fixar em todas as áreas de trabalho e assumir o tamanho.
    fn preparar(&self, largura: i32, altura: i32) -> Result<(), String>;

    fn mover(&self, x: i32, y: i32) -> Result<(), String>;

    /// Todos os monitores, `(x, y, largura, altura)`. `None` quando o
    /// compositor não sabe responder.
    fn monitores(&self) -> Option<Vec<(i32, i32, i32, i32)>>;

    /// O monitor onde o overlay está.
    fn monitor_do_overlay(&self) -> Option<(i32, i32, i32, i32)>;

    /// Onde o overlay está agora.
    fn posicao_atual(&self) -> Option<(i32, i32)>;

    /// O compositor já conhece a janela? As regras só pegam depois disso.
    fn janela_conhecida(&self) -> bool;

    /// Onde o ponteiro está, em coordenada global; `None` quando o compositor
    /// não conta.
    fn posicao_do_cursor(&self) -> (r: Option<(i32, i32)>)
        default_ensures
            r is None,
    {
        None
    }

    /// Este compositor sabe ligar e desligar o desfoque atrás do overlay?
    fn sabe_desfocar(&self) -> (r: bool)
        default_ensures
            !r,
    {
        false
    }

    /// Borrar ou não o que está **atrás** do overlay.
    fn definir_desfoque(&self, atras: bool) -> (r: Result<(), String>)
        default_ensures
            r is Err && r->Err_0@ == "este compositor não tem controle de desfoque conhecido"@,
    {
        Err(string_of(chars_of("este compositor não tem controle de desfoque conhecido").as_slice()))
    }

    /// Troca o atalho global. Vazio dos dois lados significa "nenhum".
    fn registrar_atalho(&self, anterior: &str, novo: &str) -> Result<(), UiError>;

    fn limpar_atalho(&self, atalho: &str);
}

/// Nenhum compositor reconhecido.
///
/// Em X11 o próprio toolkit posiciona a janela; em Wayland desconhecido não
/// há o que fazer, e dizer isso é melhor que fingir.
pub struct Nenhum;

impl Compositor for Nenhum {
    fn nome(&self) -> (r: &'static str)
        ensures
            r@ == "desconhecido"@,
    {
        "desconhecido"
    }

    fn sabe_posicionar(&self) -> (r: bool)
        ensures
            !r,
    {
        false
    }

    /// Preparar e mover não podem *falhar* no desconhecido: é só ausência de
    /// recurso.
    fn preparar(&self, largura: i32, altura: i32) -> (r: Result<(), String>)
        ensures
            r is Ok,
    {
        Ok(())
    }

    fn mover(&self, x: i32, y: i32) -> (r: Result<(), String>)
        ensures
            r is Ok,
    {
        Ok(())
    }

    fn monitores(&self) -> (r: Option<Vec<(i32, i32, i32, i32)>>)
        ensures
            r is None,
    {
        None
    }

    fn monitor_do_overlay(&self) -> (r: Option<(i32, i32, i32, i32)>)
        ensures
            r is None,
    {
        None
    }

    fn posicao_atual(&self) -> (r: Option<(i32, i32)>)
        ensures
            r is None,
    {
        None
    }

    /// Sem IPC não há como saber; dizer que sim evita uma espera inútil.
    fn janela_conhecida(&self) -> (r: bool)
        ensures
            r,
    {
        true
    }

    fn registrar_atalho(&self, anterior: &str, novo: &str) -> (r: Result<(), UiError>)
        ensures
            r is Err && r->Err_0.code_view() == "hotkey.semCompositor"@ && r->Err_0.pairs().len()
                == 0,
    {
        Err(UiError::new("hotkey.semCompositor"))
    }

    fn limpar_atalho(&self, atalho: &str) {
    }
}

/// Os quatro números de um retângulo, como vieram do compositor: cada um
/// quando é inteiro.
pub type Campos = (Option<i64>, Option<i64>, Option<i64>, Option<i64>);

/// `(x, y, largura, altura)` quando os quatro vieram, cada um cortado para 32
/// bits como `as i32` corta.
pub open spec fn rect_de(c: Campos) -> Option<(i32, i32, i32, i32)> {
    match c {
        (Some(x), Some(y), Some(w), Some(h)) => Some((x as i32, y as i32, w as i32, h as i32)),
        _ => None,
    }
}

pub fn retangulo_de(c: Campos) -> (r: Option<(i32, i32, i32, i32)>)
    ensures
        r == rect_de(c),
{
    match c {
        (Some(x), Some(y), Some(w), Some(h)) => Some((x as i32, y as i32, w as i32, h as i32)),
        _ => None,
    }
}

} // verus!
