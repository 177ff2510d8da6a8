//! The tool's configuration and where it is kept.
//!
//! On Windows the configuration directory is `%APPDATA%\pzmod-dli`; on Unix it
//! is `$XDG_CONFIG_HOME/pzmod-dli`, or `$HOME/.config/pzmod-dli` when
//! `XDG_CONFIG_HOME` is unset or not absolute. The file in it is
//! `pzmdli.toml`; its backup is `pzmdli.toml.bak`.

use vstd::prelude::*;

use crate::host::{is_set, var_is_set, HostEnv, HostView};
use crate::path::{
    ends_with_component, is_plain_name, is_rooted, join, join_path, lemma_join_ends_with_name,
    lemma_join_extend_name, lemma_join_plain_appends, main_separator, path_exists, path_is_rooted,
    starts_with_two_separators, with_separator, Platform,
};

verus! {

/// The two paths the tool remembers between runs.
#[derive(Clone, Debug, PartialEq, Eq)]
pub struct Config {
    /// The SteamCMD executable.
    pub steamcmd_path: String,
    /// The Project Zomboid install (or its `mods` folder) to install into.
    pub target_dir: String,
}

impl Default for Config {
    /// A configuration with both paths empty.
    fn default() -> (c: Config)
        ensures
            c.steamcmd_path@ == Seq::<char>::empty(),
            c.target_dir@ == Seq::<char>::empty(),
    {
        Config { steamcmd_path: String::new(), target_dir: String::new() }
    }
}

/// The directory under which per-user configuration lives.
pub open spec fn config_base_of(h: HostView) -> Result<Seq<char>, Seq<char>> {
    match h.platform {
        Platform::Windows => {
            if is_set(h.appdata) {
                Ok(h.appdata->0)
            } else {
                Err("APPDATA is not set; cannot determine config directory"@)
            }
        },
        Platform::Unix => {
            if h.xdg_config_home is Some && is_rooted(Platform::Unix, h.xdg_config_home->0)
                && h.xdg_config_home->0.len() > 0 {
                Ok(h.xdg_config_home->0)
            } else if is_set(h.home) {
                Ok(join_path(Platform::Unix, h.home->0, ".config"@))
            } else {
                Err("HOME is not set; cannot determine config directory"@)
            }
        },
    }
}

/// The tool's own configuration directory.
pub open spec fn config_dir_of(h: HostView) -> Result<Seq<char>, Seq<char>> {
    match config_base_of(h) {
        Ok(base) => Ok(join_path(h.platform, base, "pzmod-dli"@)),
        Err(e) => Err(e),
    }
}

/// The configuration file.
pub open spec fn config_path_of(h: HostView) -> Result<Seq<char>, Seq<char>> {
    match config_dir_of(h) {
        Ok(dir) => Ok(join_path(h.platform, dir, "pzmdli.toml"@)),
        Err(e) => Err(e),
    }
}

/// The backup of the configuration file.
pub open spec fn backup_path_of(h: HostView) -> Result<Seq<char>, Seq<char>> {
    match config_dir_of(h) {
        Ok(dir) => Ok(join_path(h.platform, dir, "pzmdli.toml.bak"@)),
        Err(e) => Err(e),
    }
}

/// The tool's configuration lives in a folder of its own, `pzmod-dli`, inside
/// the configuration base, and the file in it is `pzmdli.toml`. Whenever the
/// base is found, the configuration directory is the base joined with
/// `pzmod-dli`; for a base without a network, device or verbatim prefix that
/// is the base's text followed (after a separator where one is needed) by
/// `pzmod-dli`, whose last component is therefore `pzmod-dli`, and the file is
/// that directory, a separator and `pzmdli.toml`. When the base cannot be
/// found, neither can the directory or the file, for the same reason.
pub proof fn lemma_config_dir_inside_base(h: HostView)
    ensures
        match config_base_of(h) {
            Ok(base) => {
                &&& config_dir_of(h) == Ok::<Seq<char>, Seq<char>>(
                    join_path(h.platform, base, "pzmod-dli"@),
                )
                &&& !starts_with_two_separators(h.platform, base) ==> {
                    let dir = with_separator(h.platform, base) + "pzmod-dli"@;
                    &&& config_dir_of(h) == Ok::<Seq<char>, Seq<char>>(dir)
                    &&& ends_with_component(h.platform, dir, "pzmod-dli"@)
                    &&& config_path_of(h) == Ok::<Seq<char>, Seq<char>>(
                        dir + seq![main_separator(h.platform)] + "pzmdli.toml"@,
                    )
                }
            },
            Err(e) => {
                &&& config_dir_of(h) == Err::<Seq<char>, Seq<char>>(e)
                &&& config_path_of(h) == Err::<Seq<char>, Seq<char>>(e)
            },
        },
{
    reveal_strlit("pzmod-dli");
    reveal_strlit("pzmdli.toml");
    let p = h.platform;
    let app = "pzmod-dli"@;
    let file = "pzmdli.toml"@;
    assert(app.len() == 9 && file.len() == 11);
    assert(seq!['.'].len() == 1 && seq!['.', '.'].len() == 2);
    assert(is_plain_name(p, app));
    assert(is_plain_name(p, file));
    if let Ok(base) = config_base_of(h) {
        if !starts_with_two_separators(p, base) {
            lemma_join_plain_appends(p, base, app);
            lemma_join_ends_with_name(p, base, app);
            let dir = join_path(p, base, app);
            assert(dir.len() >= 9);
            assert(with_separator(p, dir) == dir.push(main_separator(p)));
            lemma_join_plain_appends(p, dir, file);
            assert(dir.push(main_separator(p)) + file =~= dir + seq![main_separator(p)] + file);
        }
    }
}

/// A relative `XDG_CONFIG_HOME` is ignored: the configuration base is the
/// same as when the variable is unset.
pub proof fn lemma_relative_xdg_ignored(h: HostView)
    requires
        h.platform == Platform::Unix,
        h.xdg_config_home is Some,
        !is_rooted(Platform::Unix, h.xdg_config_home->0),
    ensures
        config_base_of(h) == config_base_of(HostView { xdg_config_home: None, ..h }),
{
}

/// The backup of the configuration file is the file's path with `.bak`
/// appended; when one cannot be determined neither can the other, for the
/// same reason.
pub proof fn lemma_backup_beside_config(h: HostView)
    ensures
        match (config_path_of(h), backup_path_of(h)) {
            (Ok(file), Ok(backup)) => backup == file + ".bak"@,
            (Err(e1), Err(e2)) => e1 == e2,
            _ => false,
        },
{
    reveal_strlit("pzmdli.toml");
    reveal_strlit("pzmdli.toml.bak");
    reveal_strlit(".bak");
    assert("pzmdli.toml.bak"@ =~= "pzmdli.toml"@ + ".bak"@);
    if let Ok(dir) = config_dir_of(h) {
        let p = h.platform;
        let file = "pzmdli.toml"@;
        let longer = "pzmdli.toml.bak"@;
        assert(is_plain_name(p, file)) by {
            assert(file != seq!['.']);
            assert(file != seq!['.', '.']);
        }
        assert(is_plain_name(p, longer)) by {
            assert(longer != seq!['.']);
            assert(longer != seq!['.', '.']);
        }
        lemma_join_extend_name(p, dir, file, ".bak"@);
    }
}

/// The file a new configuration is written to before it replaces the
/// configuration file: `pzmdli.toml.tmp` beside it.
pub open spec fn temp_path_of(h: HostView) -> Result<Seq<char>, Seq<char>> {
    match config_dir_of(h) {
        Ok(dir) => Ok(join_path(h.platform, dir, "pzmdli.toml.tmp"@)),
        Err(e) => Err(e),
    }
}

/// The temporary file for a new configuration is the configuration file's
/// path with `.tmp` appended, as `Path::with_extension("toml.tmp")` makes it.
pub proof fn lemma_temp_beside_config(h: HostView)
    ensures
        match (config_path_of(h), temp_path_of(h)) {
            (Ok(file), Ok(temp)) => temp == file + ".tmp"@,
            (Err(e1), Err(e2)) => e1 == e2,
            _ => false,
        },
{
    reveal_strlit("pzmdli.toml");
    reveal_strlit("pzmdli.toml.tmp");
    reveal_strlit(".tmp");
    assert("pzmdli.toml.tmp"@ =~= "pzmdli.toml"@ + ".tmp"@);
    if let Ok(dir) = config_dir_of(h) {
        let p = h.platform;
        let file = "pzmdli.toml"@;
        let longer = "pzmdli.toml.tmp"@;
        assert(is_plain_name(p, file)) by {
            assert(file != seq!['.']);
            assert(file != seq!['.', '.']);
        }
        assert(is_plain_name(p, longer)) by {
            assert(longer != seq!['.']);
            assert(longer != seq!['.', '.']);
        }
        lemma_join_extend_name(p, dir, file, ".tmp"@);
    }
}

/// A result whose text is given by its view.
pub open spec fn result_view(r: Result<String, String>) -> Result<Seq<char>, Seq<char>> {
    match r {
        Ok(s) => Ok(s@),
        Err(e) => Err(e@),
    }
}

impl Config {
    /// Whether a configuration file is present. It is never present when the
    /// configuration directory cannot be determined; otherwise the answer comes
    /// from the file system.
    pub fn config_exists(host: &HostEnv) -> (b: bool)
        ensures
            config_path_of(host@) is Err ==> !b,
    {
        match Config::config_path(host) {
            Ok(path) => path_exists(path.as_str()),
            Err(_) => false,
        }
    }

    /// The configuration file: `pzmdli.toml` in the configuration directory.
    pub fn config_path(host: &HostEnv) -> (r: Result<String, String>)
        ensures
            result_view(r) == config_path_of(host@),
    {
        let dir = Config::config_dir(host)?;
        Ok(join(host.platform, dir.as_str(), "pzmdli.toml"))
    }

    /// The backup of the configuration file: `pzmdli.toml.bak` beside it.
    pub fn backup_path(host: &HostEnv) -> (r: Result<String, String>)
        ensures
            result_view(r) == backup_path_of(host@),
    {
        let dir = Config::config_dir(host)?;
        Ok(join(host.platform, dir.as_str(), "pzmdli.toml.bak"))
    }

    /// The file a new configuration is written to before it is renamed over
    /// the configuration file: `pzmdli.toml.tmp` beside it.
    pub fn temp_path(host: &HostEnv) -> (r: Result<String, String>)
        ensures
            result_view(r) == temp_path_of(host@),
    {
        let dir = Config::config_dir(host)?;
        Ok(join(host.platform, dir.as_str(), "pzmdli.toml.tmp"))
    }

    /// The configuration directory: `pzmod-dli` under the per-user
    /// configuration base.
    pub fn config_dir(host: &HostEnv) -> (r: Result<String, String>)
        ensures
            result_view(r) == config_dir_of(host@),
    {
        let base = Config::config_base(host)?;
        Ok(join(host.platform, base.as_str(), "pzmod-dli"))
    }

    /// The per-user configuration base: `APPDATA` on Windows; on Unix an
    /// absolute `XDG_CONFIG_HOME`, else `$HOME/.config`. A relative
    /// `XDG_CONFIG_HOME` is ignored, as the XDG specification asks.
    pub fn config_base(host: &HostEnv) -> (r: Result<String, String>)
        ensures
            result_view(r) == config_base_of(host@),
    {
        match host.platform {
            Platform::Windows => match &host.appdata {
                Some(appdata) if var_is_set(&host.appdata) => Ok(appdata.clone()),
                _ => Err(String::from_str("APPDATA is not set; cannot determine config directory")),
            },
            Platform::Unix => {
                if let Some(xdg) = &host.xdg_config_home {
                    if path_is_rooted(Platform::Unix, xdg.as_str()) && xdg.as_str().unicode_len()
                        > 0 {
                        return Ok(xdg.clone());
                    }
                }
                match &host.home {
                    Some(home) => {
                        if home.as_str().unicode_len() > 0 {
                            Ok(join(Platform::Unix, home.as_str(), ".config"))
                        } else {
                            Err(String::from_str("HOME is not set; cannot determine config directory"))
                        }
                    },
                    None => Err(String::from_str("HOME is not set; cannot determine config directory")),
                }
            },
        }
    }
}

} // verus!
