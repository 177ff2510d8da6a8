//! Moving one downloaded workshop item into the mods folder.
//!
//! Installing an item alternates questions to the file system with decisions,
//! so it is a state machine: `step` takes the current state and what the
//! caller observed, and gives the next state and the next thing to do. The
//! caller performs each action and reports back with the matching event.
//!
//! The steps: announce the item and check that SteamCMD produced its folder;
//! list the directories in the item's `mods` folder and take the first one as
//! the mod; check whether that mod is already installed in the target, and
//! remove its old folder if so; move the new mod into place.
//!
//! An item whose folder is missing, whose `mods` folder cannot be read or
//! holds no directory, or whose first directory has no usable name, is
//! skipped with a message: nothing is removed or moved for it, and the run
//! goes on with the next item.

use vstd::prelude::*;
use vstd::string::*;

use crate::path::{
    ends_with_component, is_plain_component, is_plain_name, is_separator, join, join_path,
    starts_with_two_separators, lemma_join_ends_with_name, path_ends_with_component, Platform,
};
use crate::steamcmd::{build_workshop_item_folder_path, workshop_item_dir_of};

verus! {

/// The item being installed and the folders involved.
#[derive(Clone, Debug, PartialEq, Eq)]
pub struct InstallJob {
    /// The workshop item id.
    pub item: String,
    /// The staging folder SteamCMD downloaded into.
    pub staging_dir: String,
    /// The configured target: a Project Zomboid install or its `mods` folder.
    pub target_dir: String,
    pub platform: Platform,
}

/// Where the installation stands.
#[derive(Clone, Debug, PartialEq, Eq)]
pub enum InstallState {
    /// Nothing done yet.
    Start,
    /// Waiting to learn whether the item's folder exists.
    CheckingItemDir,
    /// Waiting for the directories in the item's `mods` folder.
    ListingMods,
    /// Waiting to learn whether `mod_name` is already installed.
    CheckingTarget { mod_name: String },
    /// Waiting for the installed copy of `mod_name` to be removed.
    Removing { mod_name: String },
    /// Waiting for `mod_name` to be moved into place.
    Moving { mod_name: String },
    /// Finished with this item.
    Done,
}

/// What the caller observed after an action.
#[derive(Clone, Debug, PartialEq, Eq)]
pub enum InstallEvent {
    /// Start installing.
    Begin,
    /// Whether the item's folder exists.
    ItemDirExists(bool),
    /// The directories in the item's `mods` folder, in the order listed: each
    /// one's name, or, where it has no name that is valid text, the path as
    /// shown to the user.
    ModDirsListed(Vec<Result<String, String>>),
    /// The item's `mods` folder could not be read; the text says why.
    ModDirsUnreadable(String),
    /// Whether the mod is already installed in the target.
    TargetExists(bool),
    /// The installed copy was removed.
    TargetRemoved,
    /// The move was attempted (the caller reports its outcome).
    MoveAttempted,
}

/// Why an item is skipped.
#[derive(Clone, Debug, PartialEq, Eq)]
pub enum SkipReason {
    /// SteamCMD produced no folder for the item.
    ItemDirMissing,
    /// The item's `mods` folder could not be read; the text says why.
    ModsDirUnreadable(String),
    /// The item's `mods` folder holds no directory.
    NoModDir,
    /// The first directory in the item's `mods` folder has no name that can
    /// be used as a folder name; the text shows it.
    UnusableModName(String),
}

/// What the caller does next.
#[derive(Clone, Debug, PartialEq, Eq)]
pub enum InstallAction {
    /// Announce the item, then report whether `path` (its folder) exists.
    CheckItemDir { path: String },
    /// Report why the item is skipped, and go on with the next item.
    SkipItem { reason: SkipReason },
    /// Report the directories in `path` (the item's `mods` folder).
    ListModDirs { path: String },
    /// Announce the mod found, then report whether `path` (its installed
    /// location) exists.
    CheckTarget { mod_name: String, path: String },
    /// Remove the installed copy of `mod_name` at `path`.
    RemoveTarget { mod_name: String, path: String },
    /// Move `mod_name` from `from` to `to`, and report the outcome.
    MoveMod { mod_name: String, from: String, to: String },
    /// The item is finished.
    Finish,
    /// The event does not belong to the current state; nothing changes.
    Unexpected,
}

/// The view of an `InstallJob`.
pub struct InstallJobView {
    pub item: Seq<char>,
    pub staging_dir: Seq<char>,
    pub target_dir: Seq<char>,
    pub platform: Platform,
}

/// The view of an `InstallState`.
pub enum InstallStateView {
    Start,
    CheckingItemDir,
    ListingMods,
    CheckingTarget { mod_name: Seq<char> },
    Removing { mod_name: Seq<char> },
    Moving { mod_name: Seq<char> },
    Done,
}

/// The view of an `InstallEvent`.
pub enum InstallEventView {
    Begin,
    ItemDirExists(bool),
    ModDirsListed(Seq<Result<Seq<char>, Seq<char>>>),
    ModDirsUnreadable(Seq<char>),
    TargetExists(bool),
    TargetRemoved,
    MoveAttempted,
}

/// The view of a `SkipReason`.
pub enum SkipReasonView {
    ItemDirMissing,
    ModsDirUnreadable(Seq<char>),
    NoModDir,
    UnusableModName(Seq<char>),
}

/// The view of an `InstallAction`.
pub enum InstallActionView {
    CheckItemDir { path: Seq<char> },
    SkipItem { reason: SkipReasonView },
    ListModDirs { path: Seq<char> },
    CheckTarget { mod_name: Seq<char>, path: Seq<char> },
    RemoveTarget { mod_name: Seq<char>, path: Seq<char> },
    MoveMod { mod_name: Seq<char>, from: Seq<char>, to: Seq<char> },
    Finish,
    Unexpected,
}

/// The view of a listed directory.
pub open spec fn entry_view(e: Result<String, String>) -> Result<Seq<char>, Seq<char>> {
    match e {
        Ok(s) => Ok(s@),
        Err(s) => Err(s@),
    }
}

impl View for InstallJob {
    type V = InstallJobView;

    open spec fn view(&self) -> InstallJobView {
        InstallJobView {
            item: self.item@,
            staging_dir: self.staging_dir@,
            target_dir: self.target_dir@,
            platform: self.platform,
        }
    }
}

impl View for InstallState {
    type V = InstallStateView;

    open spec fn view(&self) -> InstallStateView {
        match self {
            InstallState::Start => InstallStateView::Start,
            InstallState::CheckingItemDir => InstallStateView::CheckingItemDir,
            InstallState::ListingMods => InstallStateView::ListingMods,
            InstallState::CheckingTarget { mod_name } => InstallStateView::CheckingTarget {
                mod_name: mod_name@,
            },
            InstallState::Removing { mod_name } => InstallStateView::Removing { mod_name: mod_name@ },
            InstallState::Moving { mod_name } => InstallStateView::Moving { mod_name: mod_name@ },
            InstallState::Done => InstallStateView::Done,
        }
    }
}

impl View for InstallEvent {
    type V = InstallEventView;

    open spec fn view(&self) -> InstallEventView {
        match self {
            InstallEvent::Begin => InstallEventView::Begin,
            InstallEvent::ItemDirExists(b) => InstallEventView::ItemDirExists(*b),
            InstallEvent::ModDirsListed(v) => InstallEventView::ModDirsListed(
                v@.map_values(|e: Result<String, String>| entry_view(e)),
            ),
            InstallEvent::ModDirsUnreadable(why) => InstallEventView::ModDirsUnreadable(why@),
            InstallEvent::TargetExists(b) => InstallEventView::TargetExists(*b),
            InstallEvent::TargetRemoved => InstallEventView::TargetRemoved,
            InstallEvent::MoveAttempted => InstallEventView::MoveAttempted,
        }
    }
}

impl View for SkipReason {
    type V = SkipReasonView;

    open spec fn view(&self) -> SkipReasonView {
        match self {
            SkipReason::ItemDirMissing => SkipReasonView::ItemDirMissing,
            SkipReason::ModsDirUnreadable(why) => SkipReasonView::ModsDirUnreadable(why@),
            SkipReason::NoModDir => SkipReasonView::NoModDir,
            SkipReason::UnusableModName(shown) => SkipReasonView::UnusableModName(shown@),
        }
    }
}

impl View for InstallAction {
    type V = InstallActionView;

    open spec fn view(&self) -> InstallActionView {
        match self {
            InstallAction::CheckItemDir { path } => InstallActionView::CheckItemDir { path: path@ },
            InstallAction::SkipItem { reason } => InstallActionView::SkipItem { reason: reason@ },
            InstallAction::ListModDirs { path } => InstallActionView::ListModDirs { path: path@ },
            InstallAction::CheckTarget { mod_name, path } => InstallActionView::CheckTarget {
                mod_name: mod_name@,
                path: path@,
            },
            InstallAction::RemoveTarget { mod_name, path } => InstallActionView::RemoveTarget {
                mod_name: mod_name@,
                path: path@,
            },
            InstallAction::MoveMod { mod_name, from, to } => InstallActionView::MoveMod {
                mod_name: mod_name@,
                from: from@,
                to: to@,
            },
            InstallAction::Finish => InstallActionView::Finish,
            InstallAction::Unexpected => InstallActionView::Unexpected,
        }
    }
}

/// The folder SteamCMD downloaded the item into.
pub open spec fn item_dir_of(job: InstallJobView) -> Seq<char> {
    workshop_item_dir_of(job.platform, job.item, job.staging_dir)
}

/// The `mods` folder inside the item's folder.
pub open spec fn item_mods_dir_of(job: InstallJobView) -> Seq<char> {
    join_path(job.platform, item_dir_of(job), "mods"@)
}

/// The mods folder of a target: the target itself when its last component is
/// `mods`, else its `mods` subfolder.
pub open spec fn target_mods_dir_of(p: Platform, target_dir: Seq<char>) -> Seq<char> {
    if ends_with_component(p, target_dir, "mods"@) {
        target_dir
    } else {
        join_path(p, target_dir, "mods"@)
    }
}

/// Where mod `mod_name` is installed under a target.
pub open spec fn target_mod_dir_of(p: Platform, target_dir: Seq<char>, mod_name: Seq<char>) -> Seq<char> {
    join_path(p, target_mods_dir_of(p, target_dir), mod_name)
}

/// The step to moving mod `mod_name` into place.
pub open spec fn move_step(job: InstallJobView, mod_name: Seq<char>) -> (InstallStateView, InstallActionView) {
    (
        InstallStateView::Moving { mod_name },
        InstallActionView::MoveMod {
            mod_name,
            from: join_path(job.platform, item_mods_dir_of(job), mod_name),
            to: target_mod_dir_of(job.platform, job.target_dir, mod_name),
        },
    )
}

/// One step of installing `job`: the next state and action after `event` in
/// `state`.
pub open spec fn step_of(job: InstallJobView, state: InstallStateView, event: InstallEventView) -> (InstallStateView, InstallActionView) {
    match (state, event) {
        (InstallStateView::Start, InstallEventView::Begin) => (
            InstallStateView::CheckingItemDir,
            InstallActionView::CheckItemDir { path: item_dir_of(job) },
        ),
        (InstallStateView::CheckingItemDir, InstallEventView::ItemDirExists(exists)) => {
            if exists {
                (InstallStateView::ListingMods, InstallActionView::ListModDirs { path: item_mods_dir_of(job) })
            } else {
                (InstallStateView::Done, InstallActionView::SkipItem { reason: SkipReasonView::ItemDirMissing })
            }
        },
        (InstallStateView::ListingMods, InstallEventView::ModDirsUnreadable(why)) => (
            InstallStateView::Done,
            InstallActionView::SkipItem { reason: SkipReasonView::ModsDirUnreadable(why) },
        ),
        (InstallStateView::ListingMods, InstallEventView::ModDirsListed(dirs)) => {
            if dirs.len() == 0 {
                (InstallStateView::Done, InstallActionView::SkipItem { reason: SkipReasonView::NoModDir })
            } else {
                match dirs[0] {
                    Err(shown) => (
                        InstallStateView::Done,
                        InstallActionView::SkipItem { reason: SkipReasonView::UnusableModName(shown) },
                    ),
                    Ok(mod_name) => {
                        if is_plain_name(job.platform, mod_name) {
                            (
                                InstallStateView::CheckingTarget { mod_name },
                                InstallActionView::CheckTarget {
                                    mod_name,
                                    path: target_mod_dir_of(job.platform, job.target_dir, mod_name),
                                },
                            )
                        } else {
                            (
                                InstallStateView::Done,
                                InstallActionView::SkipItem {
                                    reason: SkipReasonView::UnusableModName(mod_name),
                                },
                            )
                        }
                    },
                }
            }
        },
        (InstallStateView::CheckingTarget { mod_name }, InstallEventView::TargetExists(exists)) => {
            if exists {
                (
                    InstallStateView::Removing { mod_name },
                    InstallActionView::RemoveTarget {
                        mod_name,
                        path: target_mod_dir_of(job.platform, job.target_dir, mod_name),
                    },
                )
            } else {
                move_step(job, mod_name)
            }
        },
        (InstallStateView::Removing { mod_name }, InstallEventView::TargetRemoved) => move_step(
            job,
            mod_name,
        ),
        (InstallStateView::Moving { mod_name }, InstallEventView::MoveAttempted) => (
            InstallStateView::Done,
            InstallActionView::Finish,
        ),
        _ => (state, InstallActionView::Unexpected),
    }
}

/// The state reached and the actions taken, in order, when `events` are
/// observed one after another from `state`.
pub open spec fn run_of(job: InstallJobView, state: InstallStateView, events: Seq<InstallEventView>) -> (InstallStateView, Seq<InstallActionView>)
    decreases events.len(),
{
    if events.len() == 0 {
        (state, Seq::<InstallActionView>::empty())
    } else {
        let (next, action) = step_of(job, state, events[0]);
        let (last, rest) = run_of(job, next, events.drop_first());
        (last, seq![action] + rest)
    }
}

/// A run takes one action per event.
pub proof fn lemma_run_length(job: InstallJobView, state: InstallStateView, events: Seq<InstallEventView>)
    ensures
        run_of(job, state, events).1.len() == events.len(),
    decreases events.len(),
{
    if events.len() > 0 {
        let (next, action) = step_of(job, state, events[0]);
        lemma_run_length(job, next, events.drop_first());
    }
}

/// Once an item is finished, nothing more happens for it: every later event
/// is answered with `Unexpected` and the state stays `Done`.
pub proof fn lemma_done_is_final(job: InstallJobView, events: Seq<InstallEventView>)
    ensures
        run_of(job, InstallStateView::Done, events).0 == InstallStateView::Done,
        forall|i: int|
            0 <= i < run_of(job, InstallStateView::Done, events).1.len() ==> #[trigger] run_of(
                job,
                InstallStateView::Done,
                events,
            ).1[i] == InstallActionView::Unexpected,
    decreases events.len(),
{
    if events.len() > 0 {
        lemma_done_is_final(job, events.drop_first());
        let rest = run_of(job, InstallStateView::Done, events.drop_first()).1;
        let all = run_of(job, InstallStateView::Done, events).1;
        assert(all == seq![InstallActionView::Unexpected] + rest);
        assert forall|i: int| 0 <= i < all.len() implies #[trigger] all[i]
            == InstallActionView::Unexpected by {
            if i > 0 {
                assert(all[i] == rest[i - 1]);
            }
        }
    }
}

/// An item whose folder SteamCMD did not produce is skipped: it is reported,
/// and nothing is removed or moved for it, whatever happens afterwards.
pub proof fn lemma_missing_item_is_skipped(job: InstallJobView, later: Seq<InstallEventView>)
    ensures
        ({
            let events = seq![InstallEventView::Begin, InstallEventView::ItemDirExists(false)] + later;
            let actions = run_of(job, InstallStateView::Start, events).1;
            &&& actions[1] == InstallActionView::SkipItem { reason: SkipReasonView::ItemDirMissing }
            &&& run_of(job, InstallStateView::Start, events).0 == InstallStateView::Done
            &&& forall|i: int|
                0 <= i < actions.len() ==> !(#[trigger] actions[i] is RemoveTarget) && !(
                actions[i] is MoveMod)
        }),
{
    let events = seq![InstallEventView::Begin, InstallEventView::ItemDirExists(false)] + later;
    let e1 = events.drop_first();
    let e2 = e1.drop_first();
    assert(e2 =~= later);
    lemma_done_is_final(job, later);
    let rest = run_of(job, InstallStateView::Done, later).1;
    let after_first = run_of(job, InstallStateView::CheckingItemDir, e1).1;
    assert(after_first == seq![
        InstallActionView::SkipItem { reason: SkipReasonView::ItemDirMissing },
    ] + rest);
    let actions = run_of(job, InstallStateView::Start, events).1;
    assert(actions == seq![InstallActionView::CheckItemDir { path: item_dir_of(job) }] + after_first);
    assert forall|i: int| 0 <= i < actions.len() implies !(#[trigger] actions[i] is RemoveTarget)
        && !(actions[i] is MoveMod) by {
        if i >= 2 {
            assert(actions[i] == rest[i - 2]);
        }
    }
}

/// An installed mod is removed only right after it was found to exist, and
/// only the installed location of the mod found is ever removed or written:
/// the mod is always moved from the item's `mods` folder to that location.
pub proof fn lemma_step_touches_only_the_target(job: InstallJobView, state: InstallStateView, event: InstallEventView)
    ensures
        ({
            let action = step_of(job, state, event).1;
            &&& action matches InstallActionView::RemoveTarget { mod_name, path } ==> {
                &&& event == InstallEventView::TargetExists(true)
                &&& state == InstallStateView::CheckingTarget { mod_name }
                &&& path == target_mod_dir_of(job.platform, job.target_dir, mod_name)
            }
            &&& action matches InstallActionView::MoveMod { mod_name, from, to } ==> {
                &&& from == join_path(job.platform, item_mods_dir_of(job), mod_name)
                &&& to == target_mod_dir_of(job.platform, job.target_dir, mod_name)
            }
        }),
{
}

/// After a removal the mod that was removed is the one moved in, to the place
/// it was removed from.
pub proof fn lemma_removal_then_move(job: InstallJobView, state: InstallStateView, event: InstallEventView)
    requires
        step_of(job, state, event).1 is RemoveTarget,
    ensures
        ({
            let (next, removal) = step_of(job, state, event);
            let move_action = step_of(job, next, InstallEventView::TargetRemoved).1;
            removal matches InstallActionView::RemoveTarget { mod_name, path }
                && move_action matches InstallActionView::MoveMod { mod_name: moved, from, to }
                && moved == mod_name && to == path
        }),
{
}

/// A mod that is already installed is deleted before the new copy is moved
/// in, on every platform: once the target has been checked, the step removes
/// the installed folder exactly when it exists, and moves the mod straight
/// into place when it does not.
pub proof fn lemma_installed_copy_is_removed_first(job: InstallJobView, mod_name: Seq<char>, exists: bool)
    ensures
        step_of(job, InstallStateView::CheckingTarget { mod_name }, InstallEventView::TargetExists(exists)).1 is RemoveTarget
            <==> exists,
        exists ==> step_of(
            job,
            InstallStateView::CheckingTarget { mod_name },
            InstallEventView::TargetExists(exists),
        ) == (
            InstallStateView::Removing { mod_name },
            InstallActionView::RemoveTarget {
                mod_name,
                path: target_mod_dir_of(job.platform, job.target_dir, mod_name),
            },
        ),
        !exists ==> {
            let (next, action) = step_of(
                job,
                InstallStateView::CheckingTarget { mod_name },
                InstallEventView::TargetExists(exists),
            );
            &&& next == InstallStateView::Moving { mod_name }
            &&& action matches InstallActionView::MoveMod { mod_name: moved, from, to }
            &&& moved == mod_name
            &&& to == target_mod_dir_of(job.platform, job.target_dir, mod_name)
        },
{
}

/// Whether the mod name a state carries, if any, is a plain name.
pub open spec fn state_names_plain(p: Platform, state: InstallStateView) -> bool {
    match state {
        InstallStateView::CheckingTarget { mod_name } => is_plain_name(p, mod_name),
        InstallStateView::Removing { mod_name } => is_plain_name(p, mod_name),
        InstallStateView::Moving { mod_name } => is_plain_name(p, mod_name),
        _ => true,
    }
}

/// Whether `action` removes or writes only the installed location of a mod
/// with a plain name, moving it there from the item's `mods` folder.
pub open spec fn touches_only_the_target(job: InstallJobView, action: InstallActionView) -> bool {
    &&& action matches InstallActionView::RemoveTarget { mod_name, path } ==> {
        &&& is_plain_name(job.platform, mod_name)
        &&& path == target_mod_dir_of(job.platform, job.target_dir, mod_name)
    }
    &&& action matches InstallActionView::MoveMod { mod_name, from, to } ==> {
        &&& is_plain_name(job.platform, mod_name)
        &&& from == join_path(job.platform, item_mods_dir_of(job), mod_name)
        &&& to == target_mod_dir_of(job.platform, job.target_dir, mod_name)
    }
}

/// Each step keeps the mod name plain and acts only on the mod's location.
pub proof fn lemma_step_keeps_names_plain(job: InstallJobView, state: InstallStateView, event: InstallEventView)
    requires
        state_names_plain(job.platform, state),
    ensures
        state_names_plain(job.platform, step_of(job, state, event).0),
        touches_only_the_target(job, step_of(job, state, event).1),
{
}

/// From any state whose mod name is plain, every action of a run removes or
/// writes only the installed location of the mod.
pub proof fn lemma_run_from_touches_only_the_target(job: InstallJobView, state: InstallStateView, events: Seq<InstallEventView>)
    requires
        state_names_plain(job.platform, state),
    ensures
        forall|i: int|
            0 <= i < run_of(job, state, events).1.len() ==> touches_only_the_target(
                job,
                #[trigger] run_of(job, state, events).1[i],
            ),
    decreases events.len(),
{
    if events.len() > 0 {
        let (next, action) = step_of(job, state, events[0]);
        lemma_step_keeps_names_plain(job, state, events[0]);
        lemma_run_from_touches_only_the_target(job, next, events.drop_first());
        let rest = run_of(job, next, events.drop_first()).1;
        let all = run_of(job, state, events).1;
        assert(all == seq![action] + rest);
        assert forall|i: int| 0 <= i < all.len() implies touches_only_the_target(job, #[trigger] all[i]) by {
            if i > 0 {
                assert(all[i] == rest[i - 1]);
            }
        }
    }
}

/// Whatever is observed, installing an item removes or writes only the
/// installed location of the mod it found, whose name is a plain name, and
/// moves the mod there from the item's `mods` folder.
pub proof fn lemma_install_touches_only_the_target(job: InstallJobView, events: Seq<InstallEventView>)
    ensures
        forall|i: int|
            0 <= i < run_of(job, InstallStateView::Start, events).1.len() ==> touches_only_the_target(
                job,
                #[trigger] run_of(job, InstallStateView::Start, events).1[i],
            ),
{
    lemma_run_from_touches_only_the_target(job, InstallStateView::Start, events);
}

/// The installed location of a mod with a plain name lies directly in the
/// target's mods folder, and, where that folder has no network, device or
/// verbatim prefix, its last component is the mod's name.
pub proof fn lemma_target_is_inside_mods_folder(p: Platform, target_dir: Seq<char>, mod_name: Seq<char>)
    requires
        is_plain_name(p, mod_name),
        !starts_with_two_separators(p, target_mods_dir_of(p, target_dir)),
    ensures
        target_mod_dir_of(p, target_dir, mod_name) == join_path(p, target_mods_dir_of(p, target_dir), mod_name),
        ends_with_component(p, target_mod_dir_of(p, target_dir, mod_name), mod_name),
{
    lemma_join_ends_with_name(p, target_mods_dir_of(p, target_dir), mod_name);
}

/// An item whose `mods` folder cannot be read, holds no directory, or whose
/// first directory has no plain name, is skipped with a reason: nothing is
/// removed or moved for it, whatever happens afterwards.
pub proof fn lemma_unusable_mods_folder_is_skipped(job: InstallJobView, event: InstallEventView, later: Seq<InstallEventView>)
    requires
        ({
            ||| event is ModDirsUnreadable
            ||| event matches InstallEventView::ModDirsListed(dirs) && (dirs.len() == 0
                || dirs[0] is Err || !is_plain_name(job.platform, dirs[0]->Ok_0))
        }),
    ensures
        ({
            let (last, actions) = run_of(job, InstallStateView::ListingMods, seq![event] + later);
            &&& actions[0] is SkipItem
            &&& last == InstallStateView::Done
            &&& forall|i: int|
                0 <= i < actions.len() ==> !(#[trigger] actions[i] is RemoveTarget) && !(
                actions[i] is MoveMod)
        }),
{
    let events = seq![event] + later;
    assert(events.drop_first() =~= later);
    assert(events[0] == event);
    lemma_done_is_final(job, later);
    let rest = run_of(job, InstallStateView::Done, later).1;
    let actions = run_of(job, InstallStateView::ListingMods, events).1;
    assert(step_of(job, InstallStateView::ListingMods, event).0 == InstallStateView::Done);
    assert(actions == seq![step_of(job, InstallStateView::ListingMods, event).1] + rest);
    assert forall|i: int| 0 <= i < actions.len() implies !(#[trigger] actions[i] is RemoveTarget)
        && !(actions[i] is MoveMod) by {
        if i >= 1 {
            assert(actions[i] == rest[i - 1]);
        }
    }
}

/// Naming the `mods` folder as the target, or the install that holds it,
/// installs a mod at the same place: a target that is not itself a `mods`
/// folder has its `mods` subfolder used. This holds wherever joining `mods` to
/// the install gives a folder named `mods` (it does not where `mods` becomes
/// part of a network or device prefix, as in `\\server` joined with `mods`).
pub proof fn lemma_mods_folder_or_its_parent(p: Platform, base: Seq<char>, mod_name: Seq<char>)
    requires
        !ends_with_component(p, base, "mods"@),
        ends_with_component(p, join_path(p, base, "mods"@), "mods"@),
    ensures
        target_mod_dir_of(p, join_path(p, base, "mods"@), mod_name) == target_mod_dir_of(
            p,
            base,
            mod_name,
        ),
{
}

/// Joining `mods` to a folder without a network, device or verbatim prefix
/// gives a folder named `mods`.
pub proof fn lemma_mods_subfolder_is_named_mods(p: Platform, base: Seq<char>)
    requires
        !starts_with_two_separators(p, base),
    ensures
        ends_with_component(p, join_path(p, base, "mods"@), "mods"@),
{
    lemma_mods_is_plain(p);
    lemma_join_ends_with_name(p, base, "mods"@);
}

/// `mods` is a single normal component.
proof fn lemma_mods_is_plain(p: Platform)
    ensures
        is_plain_name(p, "mods"@),
{
    reveal_strlit("mods");
    let mods = "mods"@;
    assert(mods =~= seq!['m', 'o', 'd', 's']);
    assert forall|k: int| 0 <= k < mods.len() implies !is_separator(p, #[trigger] mods[k]) by {}
    assert(mods != seq!['.']) by {
        assert(mods.len() != 1);
    }
    assert(mods != seq!['.', '.']) by {
        assert(mods.len() != 2);
    }
}

/// Where mod `mod_name` is installed under `target_dir`: in the target itself
/// when it already is a `mods` folder, else in its `mods` subfolder.
pub fn target_mod_dir(p: Platform, target_dir: &str, mod_name: &str) -> (r: String)
    ensures
        r@ == target_mod_dir_of(p, target_dir@, mod_name@),
{
    proof {
        reveal_strlit("mods");
        lemma_mods_is_plain(p);
    }
    if path_ends_with_component(p, target_dir, "mods") {
        join(p, target_dir, mod_name)
    } else {
        let mods = join(p, target_dir, "mods");
        join(p, mods.as_str(), mod_name)
    }
}

fn item_mods_dir(job: &InstallJob) -> (r: String)
    ensures
        r@ == item_mods_dir_of(job@),
{
    let item_dir = build_workshop_item_folder_path(job.item.as_str(), job.staging_dir.as_str(), job.platform);
    join(job.platform, item_dir.as_str(), "mods")
}

fn move_action(job: &InstallJob, mod_name: String) -> (r: (InstallState, InstallAction))
    ensures
        (r.0@, r.1@) == move_step(job@, mod_name@),
{
    let mods_dir = item_mods_dir(job);
    let from = join(job.platform, mods_dir.as_str(), mod_name.as_str());
    let to = target_mod_dir(job.platform, job.target_dir.as_str(), mod_name.as_str());
    (InstallState::Moving { mod_name: mod_name.clone() }, InstallAction::MoveMod { mod_name, from, to })
}

/// One step of installing `job`: the next state and the action to perform,
/// given what was observed in `state`.
pub fn step(job: &InstallJob, state: InstallState, event: InstallEvent) -> (r: (InstallState, InstallAction))
    ensures
        (r.0@, r.1@) == step_of(job@, state@, event@),
{
    match (state, event) {
        (InstallState::Start, InstallEvent::Begin) => {
            let path = build_workshop_item_folder_path(job.item.as_str(), job.staging_dir.as_str(), job.platform);
            (InstallState::CheckingItemDir, InstallAction::CheckItemDir { path })
        },
        (InstallState::CheckingItemDir, InstallEvent::ItemDirExists(exists)) => {
            if exists {
                (InstallState::ListingMods, InstallAction::ListModDirs { path: item_mods_dir(job) })
            } else {
                (InstallState::Done, InstallAction::SkipItem { reason: SkipReason::ItemDirMissing })
            }
        },
        (InstallState::ListingMods, InstallEvent::ModDirsUnreadable(why)) => (
            InstallState::Done,
            InstallAction::SkipItem { reason: SkipReason::ModsDirUnreadable(why) },
        ),
        (InstallState::ListingMods, InstallEvent::ModDirsListed(dirs)) => {
            if dirs.len() == 0 {
                return (InstallState::Done, InstallAction::SkipItem { reason: SkipReason::NoModDir });
            }
            let ghost listed = dirs@.map_values(|e: Result<String, String>| entry_view(e));
            assert(listed[0] == entry_view(dirs@[0]));
            match &dirs[0] {
                Err(shown) => (
                    InstallState::Done,
                    InstallAction::SkipItem { reason: SkipReason::UnusableModName(shown.clone()) },
                ),
                Ok(name) => {
                    if is_plain_component(job.platform, name.as_str()) {
                        let mod_name = name.clone();
                        let path = target_mod_dir(job.platform, job.target_dir.as_str(), mod_name.as_str());
                        (
                            InstallState::CheckingTarget { mod_name: mod_name.clone() },
                            InstallAction::CheckTarget { mod_name, path },
                        )
                    } else {
                        (
                            InstallState::Done,
                            InstallAction::SkipItem { reason: SkipReason::UnusableModName(name.clone()) },
                        )
                    }
                },
            }
        },
        (InstallState::CheckingTarget { mod_name }, InstallEvent::TargetExists(exists)) => {
            if exists {
                let path = target_mod_dir(job.platform, job.target_dir.as_str(), mod_name.as_str());
                (InstallState::Removing { mod_name: mod_name.clone() }, InstallAction::RemoveTarget { mod_name, path })
            } else {
                move_action(job, mod_name)
            }
        },
        (InstallState::Removing { mod_name }, InstallEvent::TargetRemoved) => move_action(job, mod_name),
        (InstallState::Moving { mod_name: _ }, InstallEvent::MoveAttempted) => (InstallState::Done, InstallAction::Finish),
        (state, _) => (state, InstallAction::Unexpected),
    }
}

} // verus!
