//! The words the person reads, in their language.
//!
//! Keyed by the English string rather than by a symbol: the code stays
//! readable without chasing a table to find out what a screen says, and a
//! sentence with no translation falls back to the one written here.

use vstd::prelude::*;

use crate::text::{ascii_lower_seq, ascii_lowercase, chars_of, eq_chars, same_text, starts_with, starts_with_chars, string_of};

verus! {

/// The languages there are words for.
#[derive(Debug, Clone, Copy, PartialEq, Eq, Structural)]
pub enum Language {
    English,
    Portuguese,
}

/// What the session asks for, from `LC_ALL`, `LC_MESSAGES` and `LANG` in that
/// order (`None` where one is not set): the first that starts with `pt`, in
/// any case, is Portuguese; the first set to something other than nothing,
/// `C` or `POSIX` is English; and English when none says.
pub open spec fn session_language(values: Seq<Option<Seq<char>>>) -> Language
    decreases values.len(),
{
    if values.len() == 0 {
        Language::English
    } else {
        match values[0] {
            Some(v) => if starts_with(ascii_lower_seq(v), "pt"@) {
                Language::Portuguese
            } else if v.len() > 0 && v != "C"@ && v != "POSIX"@ {
                Language::English
            } else {
                session_language(values.drop_first())
            },
            None => session_language(values.drop_first()),
        }
    }
}

pub open spec fn values_view(values: Seq<Option<String>>) -> Seq<Option<Seq<char>>> {
    values.map_values(|v: Option<String>| match v {
        Some(s) => Some(s@),
        None => None,
    })
}

pub fn language(values: &[Option<String>]) -> (l: Language)
    ensures
        l == session_language(values_view(values@)),
{
    let ghost all = values_view(values@);
    let mut i: usize = 0;
    assert(all.skip(0) =~= all);
    while i < values.len()
        invariant
            i <= values@.len(),
            all == values_view(values@),
            session_language(all) == session_language(all.skip(i as int)),
        decreases values@.len() - i,
    {
        proof {
            assert(all.skip(i as int).drop_first() =~= all.skip(i + 1));
            assert(all.skip(i as int)[0] == all[i as int]);
        }
        match &values[i] {
            Some(v) => {
                let c = chars_of(v.as_str());
                if starts_with_chars(ascii_lowercase(c.as_slice()).as_slice(), chars_of("pt").as_slice()) {
                    return Language::Portuguese;
                }
                if c.len() > 0 && !same_text(v.as_str(), "C") && !same_text(v.as_str(), "POSIX") {
                    return Language::English;
                }
            },
            None => {},
        }
        i = i + 1;
    }
    assert(all.skip(i as int) =~= Seq::<Option<Seq<char>>>::empty());
    Language::English
}

/// Every sentence the program puts on screen that has a Portuguese, and that
/// Portuguese; the first entry for a sentence is the one that counts.
pub open spec fn portuguese_of(english: Seq<char>) -> Option<Seq<char>> {
    if english == "Show / hide"@ {
        Some("Mostrar ou esconder"@)
    } else if english == "Move the overlay"@ {
        Some("Mover o overlay"@)
    } else if english == "Preferences…"@ {
        Some("Preferências…"@)
    } else if english == "Quit"@ {
        Some("Sair"@)
    } else if english == "Player"@ {
        Some("Player"@)
    } else if english == "Which player to follow when more than one is open."@ {
        Some("Qual player seguir quando há mais de um aberto."@)
    } else if english == "Part of the bus name"@ {
        Some("Parte do nome no barramento"@)
    } else if english == "Lyrics for this track"@ {
        Some("Letra desta faixa"@)
    } else if english == "When the wrong words are on screen, find the right ones by hand."@ {
        Some("Quando a letra na tela está errada, encontre a certa à mão."@)
    } else if english == "Artist"@ {
        Some("Artista"@)
    } else if english == "Title"@ {
        Some("Título"@)
    } else if english == "Search"@ {
        Some("Buscar"@)
    } else if english == "Searching…"@ {
        Some("Buscando…"@)
    } else if english == "A title is the least it needs."@ {
        Some("É preciso ao menos um título."@)
    } else if english == "The overlay is not running."@ {
        Some("O overlay não está aberto."@)
    } else if english == "Nothing found under that name."@ {
        Some("Nada encontrado com esse nome."@)
    } else if english == "Now showing these"@ {
        Some("Mostrando esta agora"@)
    } else if english == "Appearance"@ {
        Some("Aparência"@)
    } else if english == "Every change here shows on the overlay straight away."@ {
        Some("Toda mudança aqui aparece no overlay na hora."@)
    } else if english == "Font size"@ {
        Some("Tamanho da fonte"@)
    } else if english == "Font"@ {
        Some("Fonte"@)
    } else if english == "Font weight"@ {
        Some("Peso da fonte"@)
    } else if english == "Line up the words"@ {
        Some("Alinhamento das palavras"@)
    } else if english == "Centre"@ {
        Some("Centro"@)
    } else if english == "Left"@ {
        Some("Esquerda"@)
    } else if english == "Right"@ {
        Some("Direita"@)
    } else if english == "Width"@ {
        Some("Largura"@)
    } else if english == "In pixels. Where a long line wraps"@ {
        Some("Em pixels. Onde uma linha longa quebra"@)
    } else if english == "Rounded corners"@ {
        Some("Cantos arredondados"@)
    } else if english == "In pixels, on the strip behind the line"@ {
        Some("Em pixels, na faixa atrás da linha"@)
    } else if english == "Distance from the bottom"@ {
        Some("Distância da base"@)
    } else if english == "In pixels"@ {
        Some("Em pixels"@)
    } else if english == "Text colour"@ {
        Some("Cor do texto"@)
    } else if english == "Shadow under the text"@ {
        Some("Sombra sob o texto"@)
    } else if english == "What keeps it readable over a bright window"@ {
        Some("O que a mantém legível sobre uma janela clara"@)
    } else if english == "Darkness behind the line"@ {
        Some("Escuridão atrás da linha"@)
    } else if english == "Per cent. Zero shows nothing behind the words"@ {
        Some("Em por cento. Zero não mostra nada atrás das palavras"@)
    } else if english == "Line just sung"@ {
        Some("Linha recém-cantada"@)
    } else if english == "Kept above the current one, dimmed"@ {
        Some("Fica acima da atual, esmaecida"@)
    } else if english == "Lines still to come"@ {
        Some("Próximas linhas"@)
    } else if english == "Shown dimmed underneath. At least one is needed for the line to rise into place"@ {
        Some("Aparecem esmaecidas embaixo. Ao menos uma é necessária para a linha subir até o lugar"@)
    } else if english == "Karaoke"@ {
        Some("Karaokê"@)
    } else if english == "Fills the line as the song moves through it"@ {
        Some("Preenche a linha conforme a música avança"@)
    } else if english == "Hide while paused"@ {
        Some("Esconder quando pausado"@)
    } else if english == "Lyrics on screen with nothing playing is the most confusing thing it can do"@ {
        Some("Letra na tela sem nada tocando é a coisa mais confusa que ele pode fazer"@)
    } else if english == "Position"@ {
        Some("Posição"@)
    } else if english == "A layer surface belongs to one screen and cannot be dragged to another."@ {
        Some("Uma superfície de camada pertence a uma tela e não pode ser arrastada para outra."@)
    } else if english == "Let me move it"@ {
        Some("Deixar arrastar"@)
    } else if english == "The overlay takes your clicks while this is on, so you can drag it"@ {
        Some("O overlay aceita seus cliques enquanto isto está ligado, para você arrastá-lo"@)
    } else if english == "Screen"@ {
        Some("Tela"@)
    } else if english == "Whichever the compositor picks"@ {
        Some("A que o compositor escolher"@)
    } else if english == "Timing"@ {
        Some("Sincronia"@)
    } else if english == "Positive holds the lyrics back, negative brings them forward."@ {
        Some("Positivo atrasa a letra, negativo adianta."@)
    } else if english == "Offset in milliseconds"@ {
        Some("Ajuste em milissegundos"@)
    } else if english == "Keys"@ {
        Some("Teclas"@)
    } else if english == "Show and hide"@ {
        Some("Mostrar e esconder"@)
    } else if english == "Move it"@ {
        Some("Mover"@)
    } else if english == "Line for your configuration"@ {
        Some("Linha para a sua configuração"@)
    } else if english == "Copy"@ {
        Some("Copiar"@)
    } else if english == "Copied"@ {
        Some("Copiado"@)
    } else if english == "Starting"@ {
        Some("Início"@)
    } else if english == "The switch reads the file it writes, so it can never show on for something that is off."@ {
        Some("A chave lê o arquivo que ela escreve, então nunca mostra ligado o que está desligado."@)
    } else if english == "Start with the session"@ {
        Some("Iniciar com a sessão"@)
    } else if english == "Opens when you log in, with the overlay ready"@ {
        Some("Abre ao entrar na sessão, com o overlay pronto"@)
    } else if english == "Closing"@ {
        Some("Fechar"@)
    } else if english == "Quit LyricsLens"@ {
        Some("Sair do LyricsLens"@)
    } else if english == "Closes the overlay and leaves the status bar"@ {
        Some("Fecha o overlay e sai da barra de status"@)
    } else if english == "A newer version is out"@ {
        Some("Há uma versão mais nova"@)
    } else if english == "Installs it over this one. Nothing happens until you run it"@ {
        Some("Instala por cima desta. Nada acontece até você rodar"@)
    } else if english == "In pixels. Where a long line wraps"@ {
        Some("Em pixels. Onde uma linha longa quebra"@)
    } else if english == "Looking…"@ {
        Some("Procurando…"@)
    } else if english == "lines being followed."@ {
        Some("linhas sendo acompanhadas."@)
    } else if english == "No synced lyrics found for this one."@ {
        Some("Nenhuma letra sincronizada encontrada para esta."@)
    } else if english == "looking for the lyrics…"@ {
        Some("procurando a letra…"@)
    } else if english == "no synced lyrics for this one"@ {
        Some("sem letra sincronizada para esta"@)
    } else if english == "waiting for the player"@ {
        Some("esperando o player"@)
    } else if english == "this player does not report its position"@ {
        Some("este player não informa a posição"@)
    } else if english == "unknown track"@ {
        Some("faixa desconhecida"@)
    } else if english == "drag me"@ {
        Some("arraste-me"@)
    } else {
        None
    }
}

fn portuguese(english: &str) -> (r: Option<&'static str>)
    ensures
        match portuguese_of(english@) {
            Some(p) => r is Some && r->0@ == p,
            None => r is None,
        },
{
    if same_text(english, "Show / hide") {
        Some("Mostrar ou esconder")
    } else if same_text(english, "Move the overlay") {
        Some("Mover o overlay")
    } else if same_text(english, "Preferences…") {
        Some("Preferências…")
    } else if same_text(english, "Quit") {
        Some("Sair")
    } else if same_text(english, "Player") {
        Some("Player")
    } else if same_text(english, "Which player to follow when more than one is open.") {
        Some("Qual player seguir quando há mais de um aberto.")
    } else if same_text(english, "Part of the bus name") {
        Some("Parte do nome no barramento")
    } else if same_text(english, "Lyrics for this track") {
        Some("Letra desta faixa")
    } else if same_text(english, "When the wrong words are on screen, find the right ones by hand.") {
        Some("Quando a letra na tela está errada, encontre a certa à mão.")
    } else if same_text(english, "Artist") {
        Some("Artista")
    } else if same_text(english, "Title") {
        Some("Título")
    } else if same_text(english, "Search") {
        Some("Buscar")
    } else if same_text(english, "Searching…") {
        Some("Buscando…")
    } else if same_text(english, "A title is the least it needs.") {
        Some("É preciso ao menos um título.")
    } else if same_text(english, "The overlay is not running.") {
        Some("O overlay não está aberto.")
    } else if same_text(english, "Nothing found under that name.") {
        Some("Nada encontrado com esse nome.")
    } else if same_text(english, "Now showing these") {
        Some("Mostrando esta agora")
    } else if same_text(english, "Appearance") {
        Some("Aparência")
    } else if same_text(english, "Every change here shows on the overlay straight away.") {
        Some("Toda mudança aqui aparece no overlay na hora.")
    } else if same_text(english, "Font size") {
        Some("Tamanho da fonte")
    } else if same_text(english, "Font") {
        Some("Fonte")
    } else if same_text(english, "Font weight") {
        Some("Peso da fonte")
    } else if same_text(english, "Line up the words") {
        Some("Alinhamento das palavras")
    } else if same_text(english, "Centre") {
        Some("Centro")
    } else if same_text(english, "Left") {
        Some("Esquerda")
    } else if same_text(english, "Right") {
        Some("Direita")
    } else if same_text(english, "Width") {
        Some("Largura")
    } else if same_text(english, "In pixels. Where a long line wraps") {
        Some("Em pixels. Onde uma linha longa quebra")
    } else if same_text(english, "Rounded corners") {
        Some("Cantos arredondados")
    } else if same_text(english, "In pixels, on the strip behind the line") {
        Some("Em pixels, na faixa atrás da linha")
    } else if same_text(english, "Distance from the bottom") {
        Some("Distância da base")
    } else if same_text(english, "In pixels") {
        Some("Em pixels")
    } else if same_text(english, "Text colour") {
        Some("Cor do texto")
    } else if same_text(english, "Shadow under the text") {
        Some("Sombra sob o texto")
    } else if same_text(english, "What keeps it readable over a bright window") {
        Some("O que a mantém legível sobre uma janela clara")
    } else if same_text(english, "Darkness behind the line") {
        Some("Escuridão atrás da linha")
    } else if same_text(english, "Per cent. Zero shows nothing behind the words") {
        Some("Em por cento. Zero não mostra nada atrás das palavras")
    } else if same_text(english, "Line just sung") {
        Some("Linha recém-cantada")
    } else if same_text(english, "Kept above the current one, dimmed") {
        Some("Fica acima da atual, esmaecida")
    } else if same_text(english, "Lines still to come") {
        Some("Próximas linhas")
    } else if same_text(english, "Shown dimmed underneath. At least one is needed for the line to rise into place") {
        Some("Aparecem esmaecidas embaixo. Ao menos uma é necessária para a linha subir até o lugar")
    } else if same_text(english, "Karaoke") {
        Some("Karaokê")
    } else if same_text(english, "Fills the line as the song moves through it") {
        Some("Preenche a linha conforme a música avança")
    } else if same_text(english, "Hide while paused") {
        Some("Esconder quando pausado")
    } else if same_text(english, "Lyrics on screen with nothing playing is the most confusing thing it can do") {
        Some("Letra na tela sem nada tocando é a coisa mais confusa que ele pode fazer")
    } else if same_text(english, "Position") {
        Some("Posição")
    } else if same_text(english, "A layer surface belongs to one screen and cannot be dragged to another.") {
        Some("Uma superfície de camada pertence a uma tela e não pode ser arrastada para outra.")
    } else if same_text(english, "Let me move it") {
        Some("Deixar arrastar")
    } else if same_text(english, "The overlay takes your clicks while this is on, so you can drag it") {
        Some("O overlay aceita seus cliques enquanto isto está ligado, para você arrastá-lo")
    } else if same_text(english, "Screen") {
        Some("Tela")
    } else if same_text(english, "Whichever the compositor picks") {
        Some("A que o compositor escolher")
    } else if same_text(english, "Timing") {
        Some("Sincronia")
    } else if same_text(english, "Positive holds the lyrics back, negative brings them forward.") {
        Some("Positivo atrasa a letra, negativo adianta.")
    } else if same_text(english, "Offset in milliseconds") {
        Some("Ajuste em milissegundos")
    } else if same_text(english, "Keys") {
        Some("Teclas")
    } else if same_text(english, "Show and hide") {
        Some("Mostrar e esconder")
    } else if same_text(english, "Move it") {
        Some("Mover")
    } else if same_text(english, "Line for your configuration") {
        Some("Linha para a sua configuração")
    } else if same_text(english, "Copy") {
        Some("Copiar")
    } else if same_text(english, "Copied") {
        Some("Copiado")
    } else if same_text(english, "Starting") {
        Some("Início")
    } else if same_text(english, "The switch reads the file it writes, so it can never show on for something that is off.") {
        Some("A chave lê o arquivo que ela escreve, então nunca mostra ligado o que está desligado.")
    } else if same_text(english, "Start with the session") {
        Some("Iniciar com a sessão")
    } else if same_text(english, "Opens when you log in, with the overlay ready") {
        Some("Abre ao entrar na sessão, com o overlay pronto")
    } else if same_text(english, "Closing") {
        Some("Fechar")
    } else if same_text(english, "Quit LyricsLens") {
        Some("Sair do LyricsLens")
    } else if same_text(english, "Closes the overlay and leaves the status bar") {
        Some("Fecha o overlay e sai da barra de status")
    } else if same_text(english, "A newer version is out") {
        Some("Há uma versão mais nova")
    } else if same_text(english, "Installs it over this one. Nothing happens until you run it") {
        Some("Instala por cima desta. Nada acontece até você rodar")
    } else if same_text(english, "In pixels. Where a long line wraps") {
        Some("Em pixels. Onde uma linha longa quebra")
    } else if same_text(english, "Looking…") {
        Some("Procurando…")
    } else if same_text(english, "lines being followed.") {
        Some("linhas sendo acompanhadas.")
    } else if same_text(english, "No synced lyrics found for this one.") {
        Some("Nenhuma letra sincronizada encontrada para esta.")
    } else if same_text(english, "looking for the lyrics…") {
        Some("procurando a letra…")
    } else if same_text(english, "no synced lyrics for this one") {
        Some("sem letra sincronizada para esta")
    } else if same_text(english, "waiting for the player") {
        Some("esperando o player")
    } else if same_text(english, "this player does not report its position") {
        Some("este player não informa a posição")
    } else if same_text(english, "unknown track") {
        Some("faixa desconhecida")
    } else if same_text(english, "drag me") {
        Some("arraste-me")
    } else {
        None
    }
}

/// The sentence to show in `language`, translated when there is a
/// translation.
pub open spec fn translated(language: Language, english: Seq<char>) -> Seq<char> {
    if language == Language::English {
        english
    } else {
        match portuguese_of(english) {
            Some(p) => p,
            None => english,
        }
    }
}

pub fn t(language: Language, english: &str) -> (r: String)
    ensures
        r@ == translated(language, english@),
{
    if language == Language::English {
        return string_of(chars_of(english).as_slice());
    }
    match portuguese(english) {
        Some(p) => string_of(chars_of(p).as_slice()),
        None => string_of(chars_of(english).as_slice()),
    }
}

} // verus!
