//! Iniciar com a sessão: um `.desktop` em `~/.config/autostart/`.
//!
//! O estado *é* a existência do arquivo, e é dele que a interface lê. Aqui
//! fica onde o arquivo mora, o que ele diz, e o que fazer para ligar ou
//! desligar; mexer no disco é de fora da biblioteca.

use vstd::prelude::*;

use crate::text::{chars_of, extend, join_path, path_join, string_of};
use crate::webview::log::opt_view;

verus! {

/// Onde o executável está, do ponto de vista de quem vai chamá-lo depois:
/// dentro de um AppImage é o `AppRun` (o binário lá dentro não roda
/// sozinho); fora, o próprio executável.
pub open spec fn launcher(appdir: Option<Seq<char>>, current_exe: Option<Seq<char>>) -> Option<Seq<char>> {
    match appdir {
        Some(d) => Some(path_join(d, "AppRun"@)),
        None => current_exe,
    }
}

pub fn executavel(appdir: Option<&str>, current_exe: Option<&str>) -> (r: Option<String>)
    ensures
        match launcher(opt_view(appdir), opt_view(current_exe)) {
            Some(p) => r is Some && r->0@ == p,
            None => r is None,
        },
{
    match appdir {
        Some(d) => Some(string_of(join_path(chars_of(d).as_slice(), "AppRun").as_slice())),
        None => match current_exe {
            Some(e) => Some(string_of(chars_of(e).as_slice())),
            None => None,
        },
    }
}

/// `$XDG_CONFIG_HOME/autostart/lyricslens.desktop` quando a variável tem
/// algo, senão `$HOME/.config/autostart/lyricslens.desktop`.
pub open spec fn entry_file(xdg_config_home: Option<Seq<char>>, home: Option<Seq<char>>) -> Option<Seq<char>> {
    let base = match xdg_config_home {
        Some(v) if v.len() > 0 => Some(v),
        _ => match home {
            Some(h) => Some(path_join(h, ".config"@)),
            None => None,
        },
    };
    match base {
        Some(b) => Some(path_join(path_join(b, "autostart"@), "lyricslens.desktop"@)),
        None => None,
    }
}

pub fn arquivo(xdg_config_home: Option<&str>, home: Option<&str>) -> (r: Option<String>)
    ensures
        match entry_file(opt_view(xdg_config_home), opt_view(home)) {
            Some(p) => r is Some && r->0@ == p,
            None => r is None,
        },
{
    let base = match xdg_config_home {
        Some(v) if v.unicode_len() > 0 => chars_of(v),
        _ => match home {
            Some(h) => join_path(chars_of(h).as_slice(), ".config"),
            None => return None,
        },
    };
    let d = join_path(base.as_slice(), "autostart");
    Some(string_of(join_path(d.as_slice(), "lyricslens.desktop").as_slice()))
}

/// Um caractere que obriga o argumento a ir entre aspas.
pub open spec fn needs_quotes(c: char) -> bool {
    c == ' ' || c == '\t' || c == '"' || c == '`' || c == '$' || c == '\\' || c == '\''
}

/// Um caractere que leva contrabarra dentro das aspas.
pub open spec fn needs_escape(c: char) -> bool {
    c == '"' || c == '`' || c == '$' || c == '\\'
}

pub open spec fn escaped(s: Seq<char>) -> Seq<char>
    decreases s.len(),
{
    if s.len() == 0 {
        Seq::empty()
    } else {
        escaped(s.drop_last()) + if needs_escape(s.last()) {
            seq!['\\', s.last()]
        } else {
            seq![s.last()]
        }
    }
}

/// Um argumento do `Exec=` na forma que a especificação do freedesktop manda:
/// como está, quando nada nele separa ou confunde; senão entre aspas duplas,
/// com contrabarra antes de `"`, `` ` ``, `$` e `\`.
pub open spec fn quoted_arg(arg: Seq<char>) -> Seq<char> {
    if exists|i: int| 0 <= i < arg.len() && needs_quotes(#[trigger] arg[i]) {
        seq!['"'] + escaped(arg) + seq!['"']
    } else {
        arg
    }
}

pub fn citar(arg: &str) -> (r: String)
    ensures
        r@ == quoted_arg(arg@),
{
    let s = chars_of(arg);
    let mut precisa = false;
    let mut k: usize = 0;
    while k < s.len()
        invariant
            k <= s@.len(),
            precisa == exists|i: int| 0 <= i < k && needs_quotes(#[trigger] s@[i]),
        decreases s@.len() - k,
    {
        let c = s[k];
        if c == ' ' || c == '\t' || c == '"' || c == '`' || c == '$' || c == '\\' || c == '\'' {
            precisa = true;
        }
        k = k + 1;
    }
    if !precisa {
        return string_of(s.as_slice());
    }
    let mut out: Vec<char> = Vec::new();
    out.push('"');
    let mut i: usize = 0;
    while i < s.len()
        invariant
            i <= s@.len(),
            out@ == seq!['"'] + escaped(s@.take(i as int)),
        decreases s@.len() - i,
    {
        proof {
            assert(s@.take(i + 1).drop_last() =~= s@.take(i as int));
        }
        let c = s[i];
        if c == '"' || c == '`' || c == '$' || c == '\\' {
            out.push('\\');
        }
        out.push(c);
        i = i + 1;
        assert(out@ =~= seq!['"'] + escaped(s@.take(i as int)));
    }
    assert(s@.take(s@.len() as int) =~= s@);
    out.push('"');
    string_of(out.as_slice())
}

/// O `.desktop` que a sessão vai executar. `hide` faz o app subir direto para
/// a bandeja: sem ele, entrar na sessão jogaria o overlay na cara do usuário.
pub open spec fn entry_text(exec: Seq<char>) -> Seq<char> {
    "[Desktop Entry]\nType=Application\nName=LyricsLens\nComment=Letras sincronizadas sobre qualquer aplicativo\nExec="@
        + quoted_arg(exec) + " hide\nIcon=lyricslens\nTerminal=false\nCategories=AudioVideo;Audio;Music;\nX-GNOME-Autostart-enabled=true\n"@
}

pub fn conteudo(exec: &str) -> (r: String)
    ensures
        r@ == entry_text(exec@),
{
    let mut out = chars_of(
        "[Desktop Entry]\nType=Application\nName=LyricsLens\nComment=Letras sincronizadas sobre qualquer aplicativo\nExec=",
    );
    extend(&mut out, chars_of(citar(exec).as_str()).as_slice());
    extend(
        &mut out,
        chars_of(" hide\nIcon=lyricslens\nTerminal=false\nCategories=AudioVideo;Audio;Music;\nX-GNOME-Autostart-enabled=true\n").as_slice(),
    );
    string_of(out.as_slice())
}

/// A opção está ligada: o arquivo existe onde deve existir.
pub fn is_enabled(arquivo: Option<&str>, existe: bool) -> (r: bool)
    ensures
        r == (arquivo is Some && existe),
{
    arquivo.is_some() && existe
}

/// O que fazer no disco para ligar ou desligar.
#[derive(Debug, Clone, PartialEq, Eq)]
pub enum Acao {
    /// Apagar o arquivo; já não existir não é erro.
    Remover(String),
    /// Criar a pasta, se faltar, e escrever o arquivo.
    Escrever { arquivo: String, conteudo: String },
}

/// Ligar ou desligar, dados o arquivo e o executável que a sessão chamaria.
pub fn set_enabled(ligar: bool, arquivo: Option<&str>, exec: Option<&str>) -> (r: Result<Acao, String>)
    ensures
        arquivo is None ==> r is Err && r->Err_0@ == "não descobri onde fica a sua pasta de configuração"@,
        arquivo is Some && exec is None ==> r is Err && r->Err_0@ == "não descobri o caminho do executável"@,
        arquivo is Some && exec is Some && !ligar ==> (r matches Ok(Acao::Remover(p)) && p@ == arquivo->0@),
        arquivo is Some && exec is Some && ligar ==> (r matches Ok(Acao::Escrever { arquivo: p, conteudo: c })
            && p@ == arquivo->0@ && c@ == entry_text(exec->0@)),
{
    let alvo = match arquivo {
        Some(a) => a,
        None => return Err(string_of(chars_of("não descobri onde fica a sua pasta de configuração").as_slice())),
    };
    let e = match exec {
        Some(e) => e,
        None => return Err(string_of(chars_of("não descobri o caminho do executável").as_slice())),
    };
    if !ligar {
        Ok(Acao::Remover(string_of(chars_of(alvo).as_slice())))
    } else {
        Ok(Acao::Escrever { arquivo: string_of(chars_of(alvo).as_slice()), conteudo: conteudo(e) })
    }
}

} // verus!
