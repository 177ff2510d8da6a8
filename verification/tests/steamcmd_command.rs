use pzmod_dli::config::Config;
use pzmod_dli::path::Platform;
use pzmod_dli::steamcmd::{
    build_steamcmd_command, build_workshop_item_folder_path, download_target, download_target_with,
    scmd_download_source, staging_dir, ArchiveFormat,
};

fn strings(v: &[&str]) -> Vec<String> {
    v.iter().map(|s| s.to_string()).collect()
}

fn config(target: &str) -> Config {
    Config { steamcmd_path: "/opt/steamcmd/steamcmd.sh".to_string(), target_dir: target.to_string() }
}

#[test]
fn staging_is_inside_target() {
    assert_eq!(staging_dir(&config("/games/pz"), Platform::Unix), "/games/pz/.pzmdli-staging");
    assert_eq!(
        staging_dir(&config("C:\\games\\pz"), Platform::Windows),
        "C:\\games\\pz\\.pzmdli-staging"
    );
}

#[test]
fn workshop_item_folder() {
    assert_eq!(
        build_workshop_item_folder_path("3792740760", "/games/pz/.pzmdli-staging", Platform::Unix),
        "/games/pz/.pzmdli-staging/steamapps/workshop/content/108600/3792740760"
    );
}

#[test]
fn steamcmd_command_logs_in_anonymously_and_downloads_each_item() {
    let cmd = build_steamcmd_command(
        &config("/games/pz"),
        "/games/pz/.pzmdli-staging",
        &strings(&["3792740760", "3790573197"]),
    );
    assert_eq!(cmd.program, "/opt/steamcmd/steamcmd.sh");
    assert_eq!(
        cmd.args,
        strings(&[
            "+force_install_dir",
            "/games/pz/.pzmdli-staging",
            "+login",
            "anonymous",
            "+workshop_download_item",
            "108600",
            "3792740760",
            "+workshop_download_item",
            "108600",
            "3790573197",
            "+quit",
        ])
    );
}

#[test]
fn steamcmd_command_without_items() {
    let cmd = build_steamcmd_command(&config("/t"), "/t/s", &Vec::new());
    assert_eq!(cmd.args, strings(&["+force_install_dir", "/t/s", "+login", "anonymous", "+quit"]));
}

#[test]
fn download_sources() {
    assert_eq!(
        scmd_download_source(Platform::Unix),
        (
            "https://steamcdn-a.akamaihd.net/client/installer/steamcmd_linux.tar.gz".to_string(),
            ArchiveFormat::TarGz
        )
    );
    assert_eq!(
        scmd_download_source(Platform::Windows),
        ("https://client-update.steamstatic.com/installer/steamcmd.zip".to_string(), ArchiveFormat::Zip)
    );
}

#[test]
fn download_target_for_linux_archive() {
    let (url, _) = scmd_download_source(Platform::Unix);
    let t = download_target(Platform::Unix, &url, "/home/u/.config/pzmod-dli").unwrap();
    assert_eq!(t.url, url);
    assert_eq!(t.archive_path, "/home/u/.config/pzmod-dli/steamcmd_linux.tar.gz");
    assert_eq!(t.tmp_path, "/home/u/.config/pzmod-dli/steamcmd_linux.tar.gz.tmp");
}

#[test]
fn download_target_url_is_normalised() {
    let t = download_target(Platform::Unix, "HTTPS://EXAMPLE.COM/a.zip", "/d").unwrap();
    assert_eq!(t.url, "https://example.com/a.zip");
    assert_eq!(t.archive_path, "/d/a.zip");
}

#[test]
fn download_target_invalid_url() {
    assert_eq!(
        download_target(Platform::Unix, "not a url/x.zip", "/d"),
        Err("invalid SteamCMD URL not a url/x.zip: relative URL without a base".to_string())
    );
}

#[test]
fn download_target_without_file_name() {
    assert_eq!(
        download_target(Platform::Unix, "https://example.com/", "/d"),
        Err("cannot derive a file name from https://example.com/".to_string())
    );
}

#[test]
fn download_target_with_given_parse_results() {
    assert_eq!(
        download_target_with(Platform::Unix, "u/f.zip", "/d", Err("boom".to_string())),
        Err("invalid SteamCMD URL u/f.zip: boom".to_string())
    );
    let t = download_target_with(Platform::Windows, "u/f.zip", "C:\\d", Ok("parsed".to_string())).unwrap();
    assert_eq!(t.url, "parsed");
    assert_eq!(t.archive_path, "C:\\d\\f.zip");
    assert_eq!(t.tmp_path, "C:\\d\\f.zip.tmp");
    assert_eq!(
        download_target_with(Platform::Unix, "nofile/", "/d", Ok("parsed".to_string())),
        Err("cannot derive a file name from nofile/".to_string())
    );
}
