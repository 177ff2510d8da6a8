//! What the tool reads from the machine it runs on: the platform and the
//! environment variables that locate its directories.

use vstd::prelude::*;

use crate::path::Platform;

verus! {

/// A snapshot of the host, taken by the caller before any decision is made.
/// A variable that is not set is `None`.
#[derive(Clone, Debug, PartialEq, Eq)]
pub struct HostEnv {
    pub platform: Platform,
    /// `APPDATA`, read on Windows.
    pub appdata: Option<String>,
    /// `XDG_CONFIG_HOME`, read on Unix.
    pub xdg_config_home: Option<String>,
    /// `HOME`, read on Unix.
    pub home: Option<String>,
    /// The user's home directory as `std::env::home_dir` reports it, used on
    /// Windows.
    pub home_dir: Option<String>,
}

/// The view of a `HostEnv`: its strings as character sequences.
pub struct HostView {
    pub platform: Platform,
    pub appdata: Option<Seq<char>>,
    pub xdg_config_home: Option<Seq<char>>,
    pub home: Option<Seq<char>>,
    pub home_dir: Option<Seq<char>>,
}

/// The view of an optional string.
pub open spec fn opt_view(o: Option<String>) -> Option<Seq<char>> {
    match o {
        Some(s) => Some(s@),
        None => None,
    }
}

/// A variable that is set to a non-empty value.
pub open spec fn is_set(o: Option<Seq<char>>) -> bool {
    o is Some && o->0.len() > 0
}

impl View for HostEnv {
    type V = HostView;

    open spec fn view(&self) -> HostView {
        HostView {
            platform: self.platform,
            appdata: opt_view(self.appdata),
            xdg_config_home: opt_view(self.xdg_config_home),
            home: opt_view(self.home),
            home_dir: opt_view(self.home_dir),
        }
    }
}

/// Whether an optional string is set to a non-empty value.
pub fn var_is_set(o: &Option<String>) -> (b: bool)
    ensures
        b == is_set(opt_view(*o)),
{
    match o {
        Some(s) => s.as_str().unicode_len() > 0,
        None => false,
    }
}

} // verus!
