//! Where the machine keeps files of Codex for all users.

use vstd::prelude::*;

use crate::history_cell::opt_str;
use crate::paths::{join, joined};
use crate::reasoning_status::opt_text;

verus! {

/// The kind of system that the program runs on.
#[derive(Clone, Copy, PartialEq, Eq, Structural, Debug)]
pub enum Platform {
    Unix,
    Windows,
    Other,
}

/// The directory of Codex for the whole machine, on Unix.
pub const SYSTEM_CODEX_DIR: &'static str = "/etc/codex";

/// The directory of data of all users on Windows, where the system names none.
pub const DEFAULT_PROGRAM_DATA_DIR_WINDOWS: &'static str = "C:\\ProgramData";

/// `name` below `base` in the notation of Windows: one separator stands between
/// the two, unless `base` ends with one or is a drive.
pub open spec fn below_on_windows(base: Seq<char>, name: Seq<char>) -> Seq<char> {
    let is_drive = base.len() == 2 && base[1] == ':' && ('a' <= base[0] <= 'z' || 'A' <= base[0]
        <= 'Z');
    if base.len() == 0 || base.last() == '\\' || base.last() == '/' || is_drive {
        base + name
    } else {
        base + seq!['\\'] + name
    }
}

fn join_on_windows(base: &str, name: &str) -> (r: String)
    ensures
        r@ == below_on_windows(base@, name@),
{
    let mut r = base.to_string();
    let len: usize = base.unicode_len();
    if len > 0 {
        let last = base.get_char(len - 1);
        let first = base.get_char(0);
        let is_drive = len == 2 && last == ':' && (('a' <= first && first <= 'z') || ('A' <= first
            && first <= 'Z'));
        if last != '\\' && last != '/' && !is_drive {
            r.push('\\');
        }
    }
    r.append(name);
    assert(r@ =~= below_on_windows(base@, name@));
    r
}

/// The directory of Codex for the whole machine. `program_data` is the directory of
/// data of all users on Windows, where the system names it.
pub open spec fn system_dir(platform: Platform, program_data: Option<Seq<char>>) -> Option<
    Seq<char>,
> {
    match platform {
        Platform::Unix => Some("/etc/codex"@),
        Platform::Windows => {
            let base = match program_data {
                Some(dir) => dir,
                None => "C:\\ProgramData"@,
            };
            Some(below_on_windows(below_on_windows(base, "OpenAI"@), "Codex"@))
        },
        Platform::Other => None,
    }
}

/// What has the name `name` in the directory of Codex for the whole machine.
pub open spec fn in_system_dir(
    platform: Platform,
    program_data: Option<Seq<char>>,
    name: Seq<char>,
) -> Option<Seq<char>> {
    match system_dir(platform, program_data) {
        Some(dir) => Some(
            if platform == Platform::Windows {
                below_on_windows(dir, name)
            } else {
                joined(dir, name)
            },
        ),
        None => None,
    }
}

/// The directory of Codex for the whole machine.
pub fn system_codex_dir(platform: Platform, program_data: Option<&str>) -> (r: Option<String>)
    ensures
        opt_text(r) == system_dir(platform, opt_str(program_data)),
{
    match platform {
        Platform::Unix => Some(SYSTEM_CODEX_DIR.to_string()),
        Platform::Windows => {
            let base = match program_data {
                Some(dir) => dir,
                None => DEFAULT_PROGRAM_DATA_DIR_WINDOWS,
            };
            Some(join_on_windows(join_on_windows(base, "OpenAI").as_str(), "Codex"))
        },
        Platform::Other => None,
    }
}

fn named_in_system_dir(platform: Platform, program_data: Option<&str>, name: &str) -> (r: Option<
    String,
>)
    ensures
        opt_text(r) == in_system_dir(platform, opt_str(program_data), name@),
{
    match system_codex_dir(platform, program_data) {
        Some(dir) => Some(
            match platform {
                Platform::Windows => join_on_windows(dir.as_str(), name),
                _ => join(dir.as_str(), name),
            },
        ),
        None => None,
    }
}

/// The configuration file for the whole machine.
pub fn system_config_toml_path(platform: Platform, program_data: Option<&str>) -> (r: Option<
    String,
>)
    ensures
        opt_text(r) == in_system_dir(platform, opt_str(program_data), "config.toml"@),
{
    named_in_system_dir(platform, program_data, "config.toml")
}

/// The directory of skills for the whole machine.
pub fn system_admin_skills_dir(platform: Platform, program_data: Option<&str>) -> (r: Option<
    String,
>)
    ensures
        opt_text(r) == in_system_dir(platform, opt_str(program_data), "skills"@),
{
    named_in_system_dir(platform, program_data, "skills")
}

/// Where the files for all users lie: below `/etc/codex` on Unix, below the directory of
/// program data on Windows, and nowhere on another system.
pub proof fn law_system_directory(dir: Seq<char>, name: Seq<char>)
    ensures
        system_dir(Platform::Unix, None) == Some("/etc/codex"@),
        system_dir(Platform::Unix, Some(dir)) == Some("/etc/codex"@),
        in_system_dir(Platform::Unix, Some(dir), name) == Some(joined("/etc/codex"@, name)),
        system_dir(Platform::Other, Some(dir)) is None,
        in_system_dir(Platform::Other, Some(dir), name) is None,
        system_dir(Platform::Windows, None) == Some("C:\\ProgramData\\OpenAI\\Codex"@),
        dir.len() > 2 && dir.last() != '\\' && dir.last() != '/' ==> system_dir(
            Platform::Windows,
            Some(dir),
        ) == Some(dir + "\\OpenAI\\Codex"@) && in_system_dir(Platform::Windows, Some(dir), name)
            == Some(dir + "\\OpenAI\\Codex\\"@ + name),
{
    reveal_strlit("C:\\ProgramData");
    reveal_strlit("OpenAI");
    reveal_strlit("Codex");
    reveal_strlit("C:\\ProgramData\\OpenAI\\Codex");
    reveal_strlit("\\OpenAI\\Codex");
    reveal_strlit("\\OpenAI\\Codex\\");
    let base = "C:\\ProgramData"@;
    let sep = seq!['\\'];
    assert(base.last() == 'a');
    assert((base + sep + "OpenAI"@).last() == 'I');
    assert(system_dir(Platform::Windows, None)->0 =~= "C:\\ProgramData\\OpenAI\\Codex"@);
    if dir.len() > 2 && dir.last() != '\\' && dir.last() != '/' {
        assert((dir + sep + "OpenAI"@).last() == 'I');
        assert((dir + sep + "OpenAI"@ + sep + "Codex"@).last() == 'x');
        assert(system_dir(Platform::Windows, Some(dir))->0 =~= dir + "\\OpenAI\\Codex"@);
        assert(in_system_dir(Platform::Windows, Some(dir), name)->0 =~= dir
            + "\\OpenAI\\Codex\\"@ + name);
    }
}

} // verus!
