use pzmod_dli::config::Config;
use pzmod_dli::host::HostEnv;
use pzmod_dli::path::Platform;
use pzmod_dli::steamcmd::{check_scmd_exists, get_scmd_dir, get_scmd_path};
use pzmod_dli::zomboid::zomboid_base_dir;

fn unix(xdg: Option<&str>, home: Option<&str>) -> HostEnv {
    HostEnv {
        platform: Platform::Unix,
        appdata: None,
        xdg_config_home: xdg.map(String::from),
        home: home.map(String::from),
        home_dir: None,
    }
}

fn windows(appdata: Option<&str>, home_dir: Option<&str>) -> HostEnv {
    HostEnv {
        platform: Platform::Windows,
        appdata: appdata.map(String::from),
        xdg_config_home: None,
        home: None,
        home_dir: home_dir.map(String::from),
    }
}

const HOME_MSG: &str = "HOME is not set; cannot determine config directory";

#[test]
fn xdg_config_home_is_used_when_absolute() {
    let h = unix(Some("/xdg"), Some("/home/u"));
    assert_eq!(Config::config_path(&h), Ok("/xdg/pzmod-dli/pzmdli.toml".to_string()));
    assert_eq!(Config::backup_path(&h), Ok("/xdg/pzmod-dli/pzmdli.toml.bak".to_string()));
    assert_eq!(Config::config_dir(&h), Ok("/xdg/pzmod-dli".to_string()));
}

#[test]
fn home_config_is_used_without_xdg() {
    let h = unix(None, Some("/home/u"));
    assert_eq!(Config::config_path(&h), Ok("/home/u/.config/pzmod-dli/pzmdli.toml".to_string()));
    assert_eq!(Config::config_base(&h), Ok("/home/u/.config".to_string()));
}

#[test]
fn relative_xdg_is_ignored() {
    let with = unix(Some("relative/dir"), Some("/home/u"));
    let without = unix(None, Some("/home/u"));
    assert_eq!(Config::config_base(&with), Config::config_base(&without));
    assert_eq!(zomboid_base_dir(&with), zomboid_base_dir(&without));
}

#[test]
fn empty_variables_count_as_unset() {
    assert_eq!(Config::config_base(&unix(Some(""), Some(""))), Err(HOME_MSG.to_string()));
    assert_eq!(
        Config::config_base(&windows(Some(""), None)),
        Err("APPDATA is not set; cannot determine config directory".to_string())
    );
}

#[test]
fn no_home_no_config() {
    let h = unix(None, None);
    assert_eq!(Config::config_path(&h), Err(HOME_MSG.to_string()));
    assert_eq!(Config::backup_path(&h), Err(HOME_MSG.to_string()));
    assert!(!Config::config_exists(&h));
    assert!(!check_scmd_exists(&h));
}

#[test]
fn windows_config_under_appdata() {
    let h = windows(Some("C:\\Users\\u\\AppData\\Roaming"), None);
    assert_eq!(
        Config::config_path(&h),
        Ok("C:\\Users\\u\\AppData\\Roaming\\pzmod-dli\\pzmdli.toml".to_string())
    );
    assert_eq!(
        get_scmd_path(&h),
        Ok("C:\\Users\\u\\AppData\\Roaming\\pzmod-dli\\steamcmd.exe".to_string())
    );
}

#[test]
fn windows_without_appdata() {
    let h = windows(None, Some("C:\\Users\\u"));
    assert_eq!(
        Config::config_path(&h),
        Err("APPDATA is not set; cannot determine config directory".to_string())
    );
    assert!(!Config::config_exists(&h));
}

#[test]
fn backup_is_config_with_bak_suffix() {
    for h in [unix(Some("/xdg/"), None), unix(None, Some("/h")), windows(Some("D:"), None)] {
        let file = Config::config_path(&h).unwrap();
        assert_eq!(Config::backup_path(&h).unwrap(), format!("{}.bak", file));
    }
}

#[test]
fn unix_steamcmd_lives_in_config_dir() {
    let h = unix(Some("/xdg"), None);
    assert_eq!(get_scmd_path(&h), Ok("/xdg/pzmod-dli/steamcmd".to_string()));
}

#[test]
fn config_absent_from_a_missing_directory() {
    let h = unix(Some("/nonexistent-pzmod-dli-test-dir"), None);
    assert!(!Config::config_exists(&h));
    assert!(!check_scmd_exists(&h));
}

#[test]
fn zomboid_dirs() {
    assert_eq!(zomboid_base_dir(&unix(None, Some("/home/u"))), Ok("/home/u/Zomboid/mods".to_string()));
    assert_eq!(zomboid_base_dir(&unix(Some("/xdg"), Some("/home/u"))), Ok("/xdg".to_string()));
    assert_eq!(zomboid_base_dir(&unix(None, None)), Err(HOME_MSG.to_string()));
    assert_eq!(
        zomboid_base_dir(&windows(None, Some("C:\\Users\\u"))),
        Ok("C:\\Users\\u\\Zomboid\\mods".to_string())
    );
    assert_eq!(
        zomboid_base_dir(&windows(Some("C:\\a"), None)),
        Err("cannot determine zomboid directory".to_string())
    );
}

#[test]
fn default_config_is_empty() {
    let c = Config::default();
    assert_eq!(c.steamcmd_path, "");
    assert_eq!(c.target_dir, "");
}

#[test]
fn temp_config_is_config_with_tmp_suffix() {
    let h = unix(Some("/xdg"), None);
    assert_eq!(Config::temp_path(&h), Ok("/xdg/pzmod-dli/pzmdli.toml.tmp".to_string()));
    let expected = std::path::PathBuf::from(Config::config_path(&h).unwrap()).with_extension("toml.tmp");
    assert_eq!(Config::temp_path(&h).unwrap(), expected.to_str().unwrap());
    assert_eq!(Config::temp_path(&unix(None, None)), Err(HOME_MSG.to_string()));
}

#[test]
fn steamcmd_dir_is_config_dir() {
    let h = unix(Some("/xdg"), None);
    assert_eq!(get_scmd_dir(&h), Ok("/xdg/pzmod-dli".to_string()));
    let path = std::path::PathBuf::from(get_scmd_path(&h).unwrap());
    assert_eq!(path.parent().unwrap().to_str().unwrap(), get_scmd_dir(&h).unwrap());
    let w = windows(Some("C:"), None);
    assert_eq!(get_scmd_dir(&w), Ok("C:pzmod-dli".to_string()));
    assert_eq!(get_scmd_path(&w), Ok("C:pzmod-dli\\steamcmd.exe".to_string()));
    assert_eq!(get_scmd_dir(&unix(None, None)), Err(HOME_MSG.to_string()));
}
