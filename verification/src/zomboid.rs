//! Where Project Zomboid keeps the mods of a user.

use vstd::prelude::*;

use crate::config::result_view;
use crate::host::{is_set, HostEnv, HostView};
use crate::path::{
    is_plain_name, is_rooted, join, join_path, lemma_join_plain_appends, main_separator,
    path_is_rooted, starts_with_two_separators, with_separator, Platform,
};

verus! {

/// The user's Project Zomboid mods directory: on Windows
/// `<home>\Zomboid\mods`; on Unix an absolute `XDG_CONFIG_HOME` as it stands,
/// else `$HOME/Zomboid/mods`.
pub open spec fn zomboid_base_dir_of(h: HostView) -> Result<Seq<char>, Seq<char>> {
    match h.platform {
        Platform::Windows => {
            if is_set(h.home_dir) {
                Ok(
                    join_path(
                        Platform::Windows,
                        join_path(Platform::Windows, h.home_dir->0, "Zomboid"@),
                        "mods"@,
                    ),
                )
            } else {
                Err("cannot determine zomboid directory"@)
            }
        },
        Platform::Unix => {
            if h.xdg_config_home is Some && is_rooted(Platform::Unix, h.xdg_config_home->0)
                && h.xdg_config_home->0.len() > 0 {
                Ok(h.xdg_config_home->0)
            } else if is_set(h.home) {
                Ok(
                    join_path(
                        Platform::Unix,
                        join_path(Platform::Unix, h.home->0, "Zomboid"@),
                        "mods"@,
                    ),
                )
            } else {
                Err("HOME is not set; cannot determine config directory"@)
            }
        },
    }
}

/// Where the mods directory is found, by platform: on Windows it is
/// `Zomboid` and then `mods` under the home directory; on Unix it is an
/// absolute `XDG_CONFIG_HOME` as it stands, else `Zomboid` and then `mods`
/// under `$HOME`. Below a home directory without a network, device or
/// verbatim prefix, the path is the home's text followed (after a separator
/// where one is needed) by `Zomboid`, the separator and `mods`. Without a
/// usable variable the directory cannot be determined.
pub proof fn lemma_mods_dir_under_home(h: HostView)
    ensures
        h.platform == Platform::Windows ==> {
            &&& !is_set(h.home_dir) ==> zomboid_base_dir_of(h) is Err
            &&& is_set(h.home_dir) && !starts_with_two_separators(Platform::Windows, h.home_dir->0)
                ==> zomboid_base_dir_of(h) == Ok::<Seq<char>, Seq<char>>(
                with_separator(Platform::Windows, h.home_dir->0) + "Zomboid"@ + seq!['\\']
                    + "mods"@,
            )
        },
        h.platform == Platform::Unix ==> {
            let xdg_used = h.xdg_config_home is Some && h.xdg_config_home->0.len() > 0
                && h.xdg_config_home->0[0] == '/';
            &&& xdg_used ==> zomboid_base_dir_of(h) == Ok::<Seq<char>, Seq<char>>(
                h.xdg_config_home->0,
            )
            &&& !xdg_used && is_set(h.home) ==> zomboid_base_dir_of(h) == Ok::<
                Seq<char>,
                Seq<char>,
            >(with_separator(Platform::Unix, h.home->0) + "Zomboid"@ + seq!['/'] + "mods"@)
            &&& !xdg_used && !is_set(h.home) ==> zomboid_base_dir_of(h) is Err
        },
{
    reveal_strlit("Zomboid");
    reveal_strlit("mods");
    let p = h.platform;
    assert("Zomboid"@.len() == 7 && "mods"@.len() == 4);
    assert(seq!['.'].len() == 1 && seq!['.', '.'].len() == 2);
    assert(is_plain_name(p, "Zomboid"@));
    assert(is_plain_name(p, "mods"@));
    let home = if p == Platform::Windows {
        h.home_dir->0
    } else {
        h.home->0
    };
    if !starts_with_two_separators(p, home) {
        lemma_join_plain_appends(p, home, "Zomboid"@);
        let z = join_path(p, home, "Zomboid"@);
        assert(z.len() >= 7);
        assert(with_separator(p, z) == z.push(main_separator(p)));
        lemma_join_plain_appends(p, z, "mods"@);
        assert(z.push(main_separator(p)) + "mods"@ =~= z + seq![main_separator(p)] + "mods"@);
    }
}

/// A relative `XDG_CONFIG_HOME` is ignored here too: the mods directory is the
/// same as when the variable is unset.
pub proof fn lemma_relative_xdg_ignored_for_mods(h: HostView)
    requires
        h.platform == Platform::Unix,
        h.xdg_config_home is Some,
        !is_rooted(Platform::Unix, h.xdg_config_home->0),
    ensures
        zomboid_base_dir_of(h) == zomboid_base_dir_of(HostView { xdg_config_home: None, ..h }),
{
}

/// The user's Project Zomboid mods directory.
pub fn zomboid_base_dir(host: &HostEnv) -> (r: Result<String, String>)
    ensures
        result_view(r) == zomboid_base_dir_of(host@),
{
    match host.platform {
        Platform::Windows => match &host.home_dir {
            Some(home) => {
                if home.as_str().unicode_len() > 0 {
                    let zomboid = join(Platform::Windows, home.as_str(), "Zomboid");
                    Ok(join(Platform::Windows, zomboid.as_str(), "mods"))
                } else {
                    Err(String::from_str("cannot determine zomboid directory"))
                }
            },
            None => Err(String::from_str("cannot determine zomboid directory")),
        },
        Platform::Unix => {
            if let Some(xdg) = &host.xdg_config_home {
                if path_is_rooted(Platform::Unix, xdg.as_str()) && xdg.as_str().unicode_len() > 0 {
                    return Ok(xdg.clone());
                }
            }
            match &host.home {
                Some(home) => {
                    if home.as_str().unicode_len() > 0 {
                        let zomboid = join(Platform::Unix, home.as_str(), "Zomboid");
                        Ok(join(Platform::Unix, zomboid.as_str(), "mods"))
                    } else {
                        Err(String::from_str("HOME is not set; cannot determine config directory"))
                    }
                },
                None => Err(String::from_str("HOME is not set; cannot determine config directory")),
            }
        },
    }
}

} // verus!
