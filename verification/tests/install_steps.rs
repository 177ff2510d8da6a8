use pzmod_dli::install::{step, target_mod_dir, InstallAction, InstallEvent, InstallJob, InstallState, SkipReason};
use pzmod_dli::path::Platform;

fn job(target: &str) -> InstallJob {
    InstallJob {
        item: "3792740760".to_string(),
        staging_dir: "/games/pz/.pzmdli-staging".to_string(),
        target_dir: target.to_string(),
        platform: Platform::Unix,
    }
}

const ITEM_DIR: &str = "/games/pz/.pzmdli-staging/steamapps/workshop/content/108600/3792740760";

#[test]
fn target_of_install_root_uses_its_mods_folder() {
    assert_eq!(target_mod_dir(Platform::Unix, "/games/pz", "MyMod"), "/games/pz/mods/MyMod");
}

#[test]
fn target_already_ending_in_mods_is_used_directly() {
    assert_eq!(target_mod_dir(Platform::Unix, "/games/pz/mods", "MyMod"), "/games/pz/mods/MyMod");
    assert_eq!(target_mod_dir(Platform::Unix, "/games/pz/mods/", "MyMod"), "/games/pz/mods/MyMod");
    assert_eq!(
        target_mod_dir(Platform::Windows, "C:\\games\\zomboid\\mods", "M"),
        "C:\\games\\zomboid\\mods\\M"
    );
}

#[test]
fn mods_folder_or_its_parent_install_to_same_place() {
    for base in ["/games/pz", "/games/pzmods", "rel"] {
        let parent = target_mod_dir(Platform::Unix, base, "X");
        let mods = target_mod_dir(Platform::Unix, &format!("{}/mods", base), "X");
        assert_eq!(parent, mods);
    }
}

#[test]
fn full_install_replacing_an_existing_mod() {
    let j = job("/games/pz");
    let (s, a) = step(&j, InstallState::Start, InstallEvent::Begin);
    assert_eq!(a, InstallAction::CheckItemDir { path: ITEM_DIR.to_string() });
    let (s, a) = step(&j, s, InstallEvent::ItemDirExists(true));
    assert_eq!(a, InstallAction::ListModDirs { path: format!("{}/mods", ITEM_DIR) });
    let (s, a) = step(
        &j,
        s,
        InstallEvent::ModDirsListed(vec![Ok("MyMod".to_string()), Ok("Other".to_string())]),
    );
    assert_eq!(
        a,
        InstallAction::CheckTarget { mod_name: "MyMod".to_string(), path: "/games/pz/mods/MyMod".to_string() }
    );
    let (s, a) = step(&j, s, InstallEvent::TargetExists(true));
    assert_eq!(
        a,
        InstallAction::RemoveTarget { mod_name: "MyMod".to_string(), path: "/games/pz/mods/MyMod".to_string() }
    );
    let (s, a) = step(&j, s, InstallEvent::TargetRemoved);
    assert_eq!(
        a,
        InstallAction::MoveMod {
            mod_name: "MyMod".to_string(),
            from: format!("{}/mods/MyMod", ITEM_DIR),
            to: "/games/pz/mods/MyMod".to_string(),
        }
    );
    let (s, a) = step(&j, s, InstallEvent::MoveAttempted);
    assert_eq!(a, InstallAction::Finish);
    assert_eq!(s, InstallState::Done);
}

#[test]
fn fresh_install_moves_without_removing() {
    let j = job("/games/pz/mods");
    let s = InstallState::CheckingTarget { mod_name: "M".to_string() };
    let (s, a) = step(&j, s, InstallEvent::TargetExists(false));
    assert_eq!(
        a,
        InstallAction::MoveMod {
            mod_name: "M".to_string(),
            from: format!("{}/mods/M", ITEM_DIR),
            to: "/games/pz/mods/M".to_string(),
        }
    );
    assert_eq!(s, InstallState::Moving { mod_name: "M".to_string() });
}

#[test]
fn missing_item_folder_is_skipped() {
    let j = job("/games/pz");
    let (s, _) = step(&j, InstallState::Start, InstallEvent::Begin);
    let (s, a) = step(&j, s, InstallEvent::ItemDirExists(false));
    assert_eq!(a, InstallAction::SkipItem { reason: SkipReason::ItemDirMissing });
    assert_eq!(s, InstallState::Done);
    let (s, a) = step(&j, s, InstallEvent::TargetExists(true));
    assert_eq!(a, InstallAction::Unexpected);
    assert_eq!(s, InstallState::Done);
}

#[test]
fn unreadable_mod_name_skips_item() {
    let j = job("/games/pz");
    let (s, a) = step(
        &j,
        InstallState::ListingMods,
        InstallEvent::ModDirsListed(vec![Err("/x/\u{fffd}".to_string()), Ok("Good".to_string())]),
    );
    assert_eq!(a, InstallAction::SkipItem { reason: SkipReason::UnusableModName("/x/\u{fffd}".to_string()) });
    assert_eq!(s, InstallState::Done);
}

#[test]
fn unusable_mod_name_skips_item() {
    let j = job("/games/pz");
    for name in ["", ".", ".."] {
        let (s, a) = step(&j, InstallState::ListingMods, InstallEvent::ModDirsListed(vec![Ok(name.to_string())]));
        assert_eq!(a, InstallAction::SkipItem { reason: SkipReason::UnusableModName(name.to_string()) });
        assert_eq!(s, InstallState::Done);
    }
}

#[test]
fn empty_mods_folder_skips_item() {
    let j = job("/games/pz");
    let (s, a) = step(&j, InstallState::ListingMods, InstallEvent::ModDirsListed(Vec::new()));
    assert_eq!(a, InstallAction::SkipItem { reason: SkipReason::NoModDir });
    assert_eq!(s, InstallState::Done);
    let (s, a) = step(&j, s, InstallEvent::TargetExists(true));
    assert_eq!(a, InstallAction::Unexpected);
    assert_eq!(s, InstallState::Done);
}

#[test]
fn unreadable_mods_folder_skips_item() {
    let j = job("/games/pz");
    let (s, a) = step(&j, InstallState::ListingMods, InstallEvent::ModDirsUnreadable("denied".to_string()));
    assert_eq!(a, InstallAction::SkipItem { reason: SkipReason::ModsDirUnreadable("denied".to_string()) });
    assert_eq!(s, InstallState::Done);
}

#[test]
fn windows_bare_drive_target() {
    let mut j = job("C:");
    j.platform = Platform::Windows;
    let (_, a) = step(&j, InstallState::ListingMods, InstallEvent::ModDirsListed(vec![Ok("M".to_string())]));
    assert_eq!(a, InstallAction::CheckTarget { mod_name: "M".to_string(), path: "C:mods\\M".to_string() });
    assert_eq!(target_mod_dir(Platform::Windows, "C:mods", "M"), "C:mods\\M");
}

#[test]
fn unexpected_event_changes_nothing() {
    let j = job("/games/pz");
    let (s, a) = step(&j, InstallState::Start, InstallEvent::TargetRemoved);
    assert_eq!(a, InstallAction::Unexpected);
    assert_eq!(s, InstallState::Start);
}
