//! Where the configuration lives. The program reads the environment
//! variables and the platform; the library decides what they give.
use crate::utils::errors::ShImagesError;
use crate::utils::text::{push_char, push_str};
use vstd::prelude::*;

verus! {

/// The platform families whose configuration directories differ.
#[derive(Debug, Clone, Copy, PartialEq, Eq)]
pub enum Platform {
    Windows,
    MacOs,
    /// Linux and the other Unix systems (XDG conventions).
    Unix,
}

/// The user's configuration directory on `platform`, from the environment
/// variables `APPDATA`, `HOME` and `XDG_CONFIG_HOME` (`None` when unset):
/// `Err` names the missing variable.
/// - Windows: `%APPDATA%`;
/// - macOS: `$HOME/Library/Application Support`;
/// - Unix: `$XDG_CONFIG_HOME`, else `$HOME/.config`.
pub open spec fn config_dir_spec(
    platform: Platform,
    appdata: Option<Seq<char>>,
    home: Option<Seq<char>>,
    xdg: Option<Seq<char>>,
) -> Result<Seq<char>, Seq<char>> {
    match platform {
        Platform::Windows => match appdata {
            Some(a) => Ok(a),
            None => Err("APPDATA is not set"@),
        },
        Platform::MacOs => match home {
            Some(h) => Ok(join_spec(join_spec(h, "Library"@), "Application Support"@)),
            None => Err("HOME is not set"@),
        },
        Platform::Unix => match xdg {
            Some(x) => Ok(x),
            None => match home {
                Some(h) => Ok(join_spec(h, ".config"@)),
                None => Err("HOME is not set"@),
            },
        },
    }
}

/// The view of an optional string.
pub open spec fn opt_view(o: Option<String>) -> Option<Seq<char>> {
    match o {
        Some(s) => Some(s@),
        None => None,
    }
}

/// Resolves the user's configuration directory on `platform` from the
/// values of `APPDATA`, `HOME` and `XDG_CONFIG_HOME`; a missing variable is a
/// configuration error.
pub fn config_dir_with(
    platform: Platform,
    appdata: Option<String>,
    home: Option<String>,
    xdg: Option<String>,
) -> (r: Result<String, ShImagesError>)
    ensures
        match config_dir_spec(platform, opt_view(appdata), opt_view(home), opt_view(xdg)) {
            Ok(d) => r matches Ok(s) && s@ == d,
            Err(m) => r matches Err(ShImagesError::Config(s)) && s@ == m,
        },
{
    match platform {
        Platform::Windows => match appdata {
            Some(a) => Ok(a),
            None => Err(ShImagesError::Config(String::from_str("APPDATA is not set"))),
        },
        Platform::MacOs => match home {
            Some(h) => {
                let lib = join(h.as_str(), "Library");
                Ok(join(lib.as_str(), "Application Support"))
            },
            None => Err(ShImagesError::Config(String::from_str("HOME is not set"))),
        },
        Platform::Unix => match xdg {
            Some(x) => Ok(x),
            None => match home {
                Some(h) => Ok(join(h.as_str(), ".config")),
                None => Err(ShImagesError::Config(String::from_str("HOME is not set"))),
            },
        },
    }
}

/// `base` joined with the relative component `comp` as `Path::join` does on
/// Unix and macOS: a `/` is put between them unless `base` is empty or
/// already ends with one (see `join_on_spec` for Windows).
pub open spec fn join_spec(base: Seq<char>, comp: Seq<char>) -> Seq<char> {
    if base.len() == 0 || base.last() == '/' {
        base + comp
    } else {
        base + seq!['/'] + comp
    }
}

/// `base` joined with the relative component `comp`.
pub fn join(base: &str, comp: &str) -> (r: String)
    ensures
        r@ == join_spec(base@, comp@),
{
    let mut r = String::from_str(base);
    let n = base.unicode_len();
    if n > 0 && base.get_char(n - 1) != '/' {
        push_str(&mut r, "/");
        proof {
            reveal_strlit("/");
        }
    }
    push_str(&mut r, comp);
    r
}

/// The settings file inside the configuration directory `config_dir`:
/// `<config_dir>/sh_images/settings.toml`, joined with `/` as on Unix and
/// macOS (see `settings_path_for` for every platform).
pub fn settings_path_in(config_dir: &str) -> (r: String)
    ensures
        r@ == join_spec(join_spec(config_dir@, "sh_images"@), "settings.toml"@),
{
    let dir = join(config_dir, "sh_images");
    join(dir.as_str(), "settings.toml")
}

/// `c` separates path components on `platform`: `/` everywhere, and `\\`
/// on Windows too.
pub open spec fn is_separator(platform: Platform, c: char) -> bool {
    c == '/' || (platform == Platform::Windows && c == '\\')
}

/// The separator that `Path::join` puts in on `platform`.
pub open spec fn separator_of(platform: Platform) -> char {
    if platform == Platform::Windows {
        '\\'
    } else {
        '/'
    }
}

/// `base` joined with the relative component `comp` as `Path::join` does on
/// `platform`: the platform's separator is put between them unless `base`
/// is empty or already ends with a separator.
pub open spec fn join_on_spec(platform: Platform, base: Seq<char>, comp: Seq<char>) -> Seq<char> {
    if base.len() == 0 || is_separator(platform, base.last()) {
        base + comp
    } else {
        base + seq![separator_of(platform)] + comp
    }
}

/// `base` joined with the relative component `comp` on `platform`.
pub fn join_on(platform: Platform, base: &str, comp: &str) -> (r: String)
    ensures
        r@ == join_on_spec(platform, base@, comp@),
{
    let windows = match platform {
        Platform::Windows => true,
        _ => false,
    };
    let mut r = String::from_str(base);
    let n = base.unicode_len();
    if n > 0 {
        let c = base.get_char(n - 1);
        if !(c == '/' || (windows && c == '\\')) {
            if windows {
                push_str(&mut r, "\\");
                proof {
                    reveal_strlit("\\");
                }
            } else {
                push_str(&mut r, "/");
                proof {
                    reveal_strlit("/");
                }
            }
        }
    }
    push_str(&mut r, comp);
    r
}

/// The settings file inside the configuration directory `config_dir` on
/// `platform`: `<config_dir>/sh_images/settings.toml` with the platform's
/// separator.
pub fn settings_path_for(platform: Platform, config_dir: &str) -> (r: String)
    ensures
        r@ == join_on_spec(
            platform,
            join_on_spec(platform, config_dir@, "sh_images"@),
            "settings.toml"@,
        ),
{
    let dir = join_on(platform, config_dir, "sh_images");
    join_on(platform, dir.as_str(), "settings.toml")
}

/// The settings file on `platform`, from the values of `APPDATA`, `HOME` and
/// `XDG_CONFIG_HOME`: the configuration directory's error when it cannot be
/// resolved.
pub fn settings_path(
    platform: Platform,
    appdata: Option<String>,
    home: Option<String>,
    xdg: Option<String>,
) -> (r: Result<String, ShImagesError>)
    ensures
        match config_dir_spec(platform, opt_view(appdata), opt_view(home), opt_view(xdg)) {
            Ok(d) => r matches Ok(s) && s@ == join_on_spec(
                platform,
                join_on_spec(platform, d, "sh_images"@),
                "settings.toml"@,
            ),
            Err(m) => r matches Err(ShImagesError::Config(s)) && s@ == m,
        },
{
    match config_dir_with(platform, appdata, home, xdg) {
        Ok(dir) => Ok(settings_path_for(platform, dir.as_str())),
        Err(e) => Err(e),
    }
}

/// `c` as the library's path functions expect it on `platform`: on Windows,
/// where `\\` separates components as `/` does, a `\\` becomes `/`.
pub open spec fn portable_char(platform: Platform, c: char) -> char {
    if platform == Platform::Windows && c == '\\' {
        '/'
    } else {
        c
    }
}

/// `s` with its separators written as `/`: the form in which the library's
/// path functions (`file_name`, `extension`, `file_stem`) read a path of
/// `platform`.
pub open spec fn portable_path_spec(platform: Platform, s: Seq<char>) -> Seq<char> {
    s.map_values(|c: char| portable_char(platform, c))
}

/// The path `s` of `platform` with its separators written as `/`.
pub fn portable_path(platform: Platform, s: &str) -> (r: String)
    ensures
        r@ == portable_path_spec(platform, s@),
{
    let windows = match platform {
        Platform::Windows => true,
        _ => false,
    };
    let n = s.unicode_len();
    let mut r = String::new();
    let mut i: usize = 0;
    while i < n
        invariant
            n == s@.len(),
            i <= n,
            windows == (platform == Platform::Windows),
            r@ == s@.take(i as int).map_values(|c: char| portable_char(platform, c)),
        decreases n - i,
    {
        let c = s.get_char(i);
        let d = if windows && c == '\\' {
            '/'
        } else {
            c
        };
        push_char(&mut r, d);
        assert(s@.take(i + 1).map_values(|c: char| portable_char(platform, c)) =~= s@.take(
            i as int,
        ).map_values(|c: char| portable_char(platform, c)).push(portable_char(platform, s@[i as int])));
        i = i + 1;
    }
    assert(s@.take(n as int) =~= s@);
    r
}

} // verus!
