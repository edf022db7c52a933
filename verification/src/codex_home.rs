//! Where Codex keeps its files.

use vstd::prelude::*;

use crate::codex_config::{
    codex_home_v, find_codex_home as resolve_named_home, ConfigError, ErrorV, NamedHome,
};
use crate::history_cell::opt_str;
use crate::paths::{join, joined};
use crate::reasoning_status::opt_text;
use crate::text;

verus! {

/// What follows the home directory in a path that starts with `~`. On Windows a
/// backslash separates the two as well.
pub open spec fn behind_home(path: Seq<char>, on_windows: bool) -> Option<Seq<char>> {
    match text::strip_prefix(path, "~/"@) {
        Some(rest) => Some(rest),
        None => if on_windows {
            text::strip_prefix(path, "~\\"@)
        } else {
            None
        },
    }
}

/// A path whose `~` stands for the home directory, where that is known.
pub open spec fn expanded(
    path: Seq<char>,
    home_dir: Option<Seq<char>>,
    on_windows: bool,
) -> Seq<char> {
    match home_dir {
        None => path,
        Some(home) => if path == "~"@ {
            home
        } else {
            match behind_home(path, on_windows) {
                Some(rest) => joined(home, rest),
                None => path,
            }
        },
    }
}

fn after_home<'a>(path_text: &'a str, on_windows: bool) -> (r: Option<&'a str>)
    ensures
        opt_str(r) == behind_home(path_text@, on_windows),
{
    match text::without_prefix(path_text, "~/") {
        Some(rest) => Some(rest),
        None => if on_windows {
            text::without_prefix(path_text, "~\\")
        } else {
            None
        },
    }
}

/// A path whose `~` stands for the home directory, where that is known.
pub fn expand_home_relative_path(
    path_text: &str,
    home_dir: Option<&str>,
    on_windows: bool,
) -> (r: String)
    ensures
        r@ == expanded(path_text@, opt_str(home_dir), on_windows),
{
    let home = match home_dir {
        Some(home) => home,
        None => return path_text.to_string(),
    };
    if text::same(path_text, "~") {
        return home.to_string();
    }
    match after_home(path_text, on_windows) {
        Some(rest) => join(home, rest),
        None => path_text.to_string(),
    }
}

/// The directory that the environment names, where it names one.
pub open spec fn named_home(
    env: Option<Seq<char>>,
    home_dir: Option<Seq<char>>,
    on_windows: bool,
) -> Option<Seq<char>> {
    match env {
        Some(value) if value.len() > 0 => Some(expanded(value, home_dir, on_windows)),
        _ => None,
    }
}

/// The directory that the environment names, where it names one.
pub fn expand_codex_home_env_path(
    home_dir: Option<&str>,
    codex_home_env: Option<&str>,
    on_windows: bool,
) -> (r: Option<String>)
    ensures
        opt_text(r) == named_home(opt_str(codex_home_env), opt_str(home_dir), on_windows),
{
    match codex_home_env {
        Some(value) => {
            if value.is_empty() {
                assert(value@.len() == 0);
                return None;
            }
            Some(expand_home_relative_path(value, home_dir, on_windows))
        },
        None => None,
    }
}

/// Where Codex keeps its files, whether or not there is such a directory: the one
/// that the environment names, else `.codex` in the home directory.
pub fn codex_home_from_env_or_home(
    home_dir: Option<&str>,
    codex_home_env: Option<&str>,
    on_windows: bool,
) -> (r: Option<String>)
    ensures
        opt_text(r) == match named_home(opt_str(codex_home_env), opt_str(home_dir), on_windows) {
            Some(path) => Some(path),
            None => match opt_str(home_dir) {
                Some(home) => Some(joined(home, ".codex"@)),
                None => None,
            },
        },
{
    match expand_codex_home_env_path(home_dir, codex_home_env, on_windows) {
        Some(path) => Some(path),
        None => match home_dir {
            Some(home) => Some(join(home, ".codex")),
            None => None,
        },
    }
}

/// Where Codex keeps its files. A directory that the environment names, with its
/// `~` expanded, must be there; `named` says what looking for it gave.
pub fn find_codex_home(named: Option<NamedHome>, home_dir: Option<&str>) -> (r: Result<
    String,
    ConfigError,
>)
    ensures
        match r {
            Ok(path) => codex_home_v(named, opt_str(home_dir)) == Ok::<Seq<char>, ErrorV>(path@),
            Err(e) => codex_home_v(named, opt_str(home_dir)) == Err::<Seq<char>, ErrorV>(e@),
        },
{
    resolve_named_home(named, home_dir)
}

/// A path behind `~/` lies in the home directory, and `~` alone is that directory; any
/// other path stays as it is, and so does every path where the home directory is not
/// known. On Windows `~\` works like `~/`, and only there.
pub proof fn law_home_is_expanded(rest: Seq<char>, path: Seq<char>, home: Seq<char>, on_windows: bool)
    ensures
        expanded("~/"@ + rest, Some(home), on_windows) == joined(home, rest),
        expanded("~"@, Some(home), on_windows) == home,
        expanded("~\\"@ + rest, Some(home), true) == joined(home, rest),
        expanded("~\\"@ + rest, Some(home), false) == "~\\"@ + rest,
        path.len() == 0 || path[0] != '~' ==> expanded(path, Some(home), on_windows) == path,
        path.len() > 1 && path[1] != '/' && path[1] != '\\' ==> expanded(
            path,
            Some(home),
            on_windows,
        ) == path,
        expanded(path, None, on_windows) == path,
{
    reveal_strlit("~/");
    reveal_strlit("~\\");
    reveal_strlit("~");
    let slash = "~/"@ + rest;
    assert(slash.subrange(0, 2) =~= "~/"@);
    assert(slash.skip(2) =~= rest);
    assert(slash.len() >= 2 && "~"@.len() == 1);
    let back = "~\\"@ + rest;
    assert(back.subrange(0, 2) =~= "~\\"@);
    assert(back.skip(2) =~= rest);
    assert(back[1] == '\\');
    if text::occurs_at(back, "~/"@, 0) {
        assert(back.subrange(0, 2)[1] == '/');
    }
    if text::occurs_at(path, "~/"@, 0) {
        assert(path.subrange(0, 2)[0] == '~' && path.subrange(0, 2)[1] == '/');
    }
    if text::occurs_at(path, "~\\"@, 0) {
        assert(path.subrange(0, 2)[0] == '~' && path.subrange(0, 2)[1] == '\\');
    }
}

/// The environment names a home where its value is not empty.
pub proof fn law_environment_names_a_home(
    value: Seq<char>,
    home_dir: Option<Seq<char>>,
    on_windows: bool,
)
    ensures
        named_home(None, home_dir, on_windows) is None,
        named_home(Some(value), home_dir, on_windows) is None <==> value.len() == 0,
        value.len() > 0 && value[0] != '~' ==> named_home(Some(value), home_dir, on_windows)
            == Some(value),
{
    if value.len() > 0 && value[0] != '~' {
        if let Some(home) = home_dir {
            law_home_is_expanded(seq![], value, home, on_windows);
        }
    }
}

} // verus!
