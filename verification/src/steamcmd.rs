//! SteamCMD: where it is installed, where it is fetched from, and the command
//! that downloads workshop items with it.

use vstd::prelude::*;
use vstd::string::*;

use crate::config::{config_dir_of, result_view, Config};
use crate::host::{HostEnv, HostView};
use crate::path::{
    ends_with_component, is_plain_name, join, join_path, lemma_join_ends_with_name,
    lemma_join_plain_appends, main_separator, path_exists, starts_with_two_separators,
    with_separator, Platform,
};
use crate::text::{lemma_split_nonempty, split_on, split_on_char, string_views};

verus! {

/// Project Zomboid's Steam application id, under which its workshop items are
/// downloaded.
pub open spec fn pz_app_id() -> Seq<char> {
    "108600"@
}

/// The SteamCMD executable's file name on `p`.
pub open spec fn scmd_file_name(p: Platform) -> Seq<char> {
    match p {
        Platform::Windows => "steamcmd.exe"@,
        Platform::Unix => "steamcmd"@,
    }
}

/// Where the tool keeps its own SteamCMD: in its configuration directory.
pub open spec fn scmd_path_of(h: HostView) -> Result<Seq<char>, Seq<char>> {
    match config_dir_of(h) {
        Ok(dir) => Ok(join_path(h.platform, dir, scmd_file_name(h.platform))),
        Err(e) => Err(e),
    }
}

/// The staging folder that SteamCMD downloads into, inside the target.
pub open spec fn staging_dir_of(p: Platform, target_dir: Seq<char>) -> Seq<char> {
    join_path(p, target_dir, ".pzmdli-staging"@)
}

/// Where SteamCMD puts workshop item `item_id` under `staging_dir`:
/// `steamapps/workshop/content/108600/<item_id>`.
pub open spec fn workshop_item_dir_of(p: Platform, item_id: Seq<char>, staging_dir: Seq<char>) -> Seq<char> {
    let steamapps = join_path(p, staging_dir, "steamapps"@);
    let workshop = join_path(p, steamapps, "workshop"@);
    let content = join_path(p, workshop, "content"@);
    let app = join_path(p, content, pz_app_id());
    join_path(p, app, item_id)
}

/// The arguments that download each of `items`, in order.
pub open spec fn download_args(items: Seq<Seq<char>>) -> Seq<Seq<char>>
    decreases items.len(),
{
    if items.len() == 0 {
        Seq::<Seq<char>>::empty()
    } else {
        download_args(items.drop_last()) + seq![
            "+workshop_download_item"@,
            pz_app_id(),
            items.last(),
        ]
    }
}

/// SteamCMD's arguments: install into `staging_dir`, log in anonymously,
/// download every item, quit.
pub open spec fn steamcmd_args(staging_dir: Seq<char>, items: Seq<Seq<char>>) -> Seq<Seq<char>> {
    seq!["+force_install_dir"@, staging_dir, "+login"@, "anonymous"@] + download_args(items) + seq![
        "+quit"@,
    ]
}

/// Whether `args` ask, at the `i`-th download, for `item`.
pub open spec fn downloads_item_at(args: Seq<Seq<char>>, i: int, item: Seq<char>) -> bool {
    &&& args[3 * i] == "+workshop_download_item"@
    &&& args[3 * i + 1] == pz_app_id()
    &&& args[3 * i + 2] == item
}

/// SteamCMD is asked for every item, in order, under Project Zomboid's app
/// id: the download arguments are one triple per item.
pub proof fn lemma_download_args_per_item(items: Seq<Seq<char>>)
    ensures
        download_args(items).len() == 3 * items.len(),
        forall|i: int|
            0 <= i < items.len() ==> #[trigger] downloads_item_at(download_args(items), i, items[i]),
    decreases items.len(),
{
    if items.len() > 0 {
        let init = items.drop_last();
        lemma_download_args_per_item(init);
        let d = download_args(items);
        let di = download_args(init);
        let tail = seq!["+workshop_download_item"@, pz_app_id(), items.last()];
        assert(d == di + tail);
        assert forall|i: int| 0 <= i < items.len() implies #[trigger] downloads_item_at(d, i, items[i]) by {
            if i < init.len() {
                assert(downloads_item_at(di, i, init[i]));
                assert(d[3 * i] == di[3 * i]);
                assert(d[3 * i + 1] == di[3 * i + 1]);
                assert(d[3 * i + 2] == di[3 * i + 2]);
                assert(init[i] == items[i]);
            } else {
                assert(3 * i == di.len());
                assert(d[3 * i] == tail[0]);
                assert(d[3 * i + 1] == tail[1]);
                assert(d[3 * i + 2] == tail[2]);
            }
        }
    }
}

/// SteamCMD is told, in this order: install into the staging folder
/// (`+force_install_dir <staging>`), log in anonymously (`+login anonymous`),
/// download each requested item under app id 108600
/// (`+workshop_download_item 108600 <id>`, one triple per id, in the order
/// given), and quit (`+quit`). Nothing else is passed.
pub proof fn lemma_steamcmd_args_layout(staging_dir: Seq<char>, items: Seq<Seq<char>>)
    ensures
        steamcmd_args(staging_dir, items).len() == 5 + 3 * items.len(),
        steamcmd_args(staging_dir, items)[0] == "+force_install_dir"@,
        steamcmd_args(staging_dir, items)[1] == staging_dir,
        steamcmd_args(staging_dir, items)[2] == "+login"@,
        steamcmd_args(staging_dir, items)[3] == "anonymous"@,
        forall|i: int|
            #![trigger items[i]]
            0 <= i < items.len() ==> steamcmd_args(staging_dir, items).subrange(4 + 3 * i, 7 + 3 * i)
                == seq!["+workshop_download_item"@, "108600"@, items[i]],
        steamcmd_args(staging_dir, items)[4 + 3 * items.len() as int] == "+quit"@,
{
    lemma_download_args_per_item(items);
    let head = seq!["+force_install_dir"@, staging_dir, "+login"@, "anonymous"@];
    let d = download_args(items);
    let a = steamcmd_args(staging_dir, items);
    assert(a == head + d + seq!["+quit"@]);
    assert(a.len() == 5 + 3 * items.len());
    assert(a[0] == head[0] && a[1] == head[1] && a[2] == head[2] && a[3] == head[3]);
    assert(a[4 + 3 * items.len() as int] == "+quit"@);
    assert forall|i: int|
        #![trigger items[i]]
        0 <= i < items.len() implies a.subrange(4 + 3 * i, 7 + 3 * i) == seq![
            "+workshop_download_item"@,
            "108600"@,
            items[i],
        ] by {
        assert(downloads_item_at(d, i, items[i]));
        assert(0 <= 3 * i && 3 * i + 2 < d.len());
        assert(a[4 + 3 * i] == d[3 * i]);
        assert(a[5 + 3 * i] == d[3 * i + 1]);
        assert(a[6 + 3 * i] == d[3 * i + 2]);
        assert(a.subrange(4 + 3 * i, 7 + 3 * i) =~= seq![
            "+workshop_download_item"@,
            "108600"@,
            items[i],
        ]);
    }
}

/// The folder names on the way to a workshop item, and the staging folder's
/// name, are single normal components.
proof fn lemma_layout_names_plain(p: Platform)
    ensures
        is_plain_name(p, "steamapps"@),
        is_plain_name(p, "workshop"@),
        is_plain_name(p, "content"@),
        is_plain_name(p, "108600"@),
        is_plain_name(p, ".pzmdli-staging"@),
        "steamapps"@.len() == 9,
{
    reveal_strlit("steamapps");
    reveal_strlit("workshop");
    reveal_strlit("content");
    reveal_strlit("108600");
    reveal_strlit(".pzmdli-staging");
    assert("steamapps"@.len() == 9);
    assert("steamapps"@ != seq!['.'] && "steamapps"@ != seq!['.', '.']) by {
        assert(seq!['.'].len() == 1 && seq!['.', '.'].len() == 2);
    }
    assert("workshop"@.len() == 8);
    assert("workshop"@ != seq!['.'] && "workshop"@ != seq!['.', '.']) by {
        assert(seq!['.'].len() == 1 && seq!['.', '.'].len() == 2);
    }
    assert("content"@.len() == 7);
    assert("content"@ != seq!['.'] && "content"@ != seq!['.', '.']) by {
        assert(seq!['.'].len() == 1 && seq!['.', '.'].len() == 2);
    }
    assert("108600"@.len() == 6);
    assert("108600"@ != seq!['.'] && "108600"@ != seq!['.', '.']) by {
        assert(seq!['.'].len() == 1 && seq!['.', '.'].len() == 2);
    }
    assert(".pzmdli-staging"@.len() == 15);
    assert(".pzmdli-staging"@ != seq!['.'] && ".pzmdli-staging"@ != seq!['.', '.']) by {
        assert(seq!['.'].len() == 1 && seq!['.', '.'].len() == 2);
    }
}

/// The staging folder is the target with `.pzmdli-staging` joined to it. For
/// a target without a network, device or verbatim prefix that is the target's
/// text followed (after a separator where one is needed) by
/// `.pzmdli-staging`: it lies inside the target, is never the target itself,
/// and its last component is `.pzmdli-staging`, whatever the target is called
/// (a target named `mods` included).
pub proof fn lemma_staging_inside_target(p: Platform, target_dir: Seq<char>)
    ensures
        staging_dir_of(p, target_dir) == join_path(p, target_dir, ".pzmdli-staging"@),
        !starts_with_two_separators(p, target_dir) ==> {
            &&& staging_dir_of(p, target_dir) == with_separator(p, target_dir)
                + ".pzmdli-staging"@
            &&& staging_dir_of(p, target_dir).len() > target_dir.len()
            &&& staging_dir_of(p, target_dir) != target_dir
            &&& ends_with_component(p, staging_dir_of(p, target_dir), ".pzmdli-staging"@)
        },
{
    lemma_layout_names_plain(p);
    if !starts_with_two_separators(p, target_dir) {
        lemma_join_plain_appends(p, target_dir, ".pzmdli-staging"@);
        lemma_join_ends_with_name(p, target_dir, ".pzmdli-staging"@);
    }
}

/// SteamCMD puts workshop item `item_id` in
/// `<staging>/steamapps/workshop/content/108600/<item_id>`, on every platform:
/// for a plain item id and a staging folder without a network, device or
/// verbatim prefix, the folder is the staging folder's text followed by those
/// five components, each after the platform's separator, and its last
/// component is the item id.
pub proof fn lemma_item_dir_layout(p: Platform, item_id: Seq<char>, staging_dir: Seq<char>)
    requires
        is_plain_name(p, item_id),
        !starts_with_two_separators(p, staging_dir),
    ensures
        ({
            let sep = seq![main_separator(p)];
            workshop_item_dir_of(p, item_id, staging_dir) == with_separator(p, staging_dir)
                + "steamapps"@ + sep + "workshop"@ + sep + "content"@ + sep + "108600"@ + sep
                + item_id
        }),
        ends_with_component(p, workshop_item_dir_of(p, item_id, staging_dir), item_id),
{
    lemma_layout_names_plain(p);
    let sep = seq![main_separator(p)];
    let steamapps = join_path(p, staging_dir, "steamapps"@);
    lemma_join_plain_appends(p, staging_dir, "steamapps"@);
    assert(steamapps.len() >= 9);
    assert(with_separator(p, steamapps) == steamapps + sep);
    let workshop = join_path(p, steamapps, "workshop"@);
    lemma_join_plain_appends(p, steamapps, "workshop"@);
    assert(with_separator(p, workshop) == workshop + sep);
    let content = join_path(p, workshop, "content"@);
    lemma_join_plain_appends(p, workshop, "content"@);
    assert(with_separator(p, content) == content + sep);
    let app = join_path(p, content, "108600"@);
    lemma_join_plain_appends(p, content, "108600"@);
    assert(with_separator(p, app) == app + sep);
    lemma_join_plain_appends(p, app, item_id);
    lemma_join_ends_with_name(p, app, item_id);
    assert(workshop_item_dir_of(p, item_id, staging_dir) == app + sep + item_id);
    assert(with_separator(p, staging_dir) + "steamapps"@ + sep + "workshop"@ + sep + "content"@
        + sep + "108600"@ + sep + item_id =~= app + sep + item_id);
}

/// The tool's own SteamCMD is the executable `steamcmd.exe` on Windows and
/// `steamcmd` on Unix, directly inside the configuration directory. For a
/// directory without a network, device or verbatim prefix the path is the
/// directory's text followed (after a separator where one is needed) by that
/// name. When the directory cannot be found, neither can SteamCMD, for the
/// same reason.
pub proof fn lemma_scmd_in_config_dir(h: HostView)
    ensures
        match config_dir_of(h) {
            Ok(dir) => {
                let name = if h.platform == Platform::Windows {
                    "steamcmd.exe"@
                } else {
                    "steamcmd"@
                };
                &&& scmd_path_of(h) == Ok::<Seq<char>, Seq<char>>(join_path(h.platform, dir, name))
                &&& !starts_with_two_separators(h.platform, dir) ==> {
                    &&& scmd_path_of(h) == Ok::<Seq<char>, Seq<char>>(
                        with_separator(h.platform, dir) + name,
                    )
                    &&& ends_with_component(h.platform, with_separator(h.platform, dir) + name, name)
                }
            },
            Err(e) => scmd_path_of(h) == Err::<Seq<char>, Seq<char>>(e),
        },
{
    reveal_strlit("steamcmd.exe");
    reveal_strlit("steamcmd");
    let p = h.platform;
    let name = scmd_file_name(p);
    assert(name.len() >= 8);
    assert(seq!['.'].len() == 1 && seq!['.', '.'].len() == 2);
    assert(is_plain_name(p, name));
    if let Ok(dir) = config_dir_of(h) {
        if !starts_with_two_separators(p, dir) {
            lemma_join_plain_appends(p, dir, name);
            lemma_join_ends_with_name(p, dir, name);
        }
    }
}

/// A program to run and its arguments.
#[derive(Clone, Debug, PartialEq, Eq)]
pub struct SteamCmdCommand {
    pub program: String,
    pub args: Vec<String>,
}

/// The archive format SteamCMD is distributed in.
#[derive(Clone, Copy, Debug, PartialEq, Eq, Structural)]
pub enum ArchiveFormat {
    Zip,
    TarGz,
}

/// Where SteamCMD is downloaded from on `p`.
pub open spec fn scmd_url_of(p: Platform) -> Seq<char> {
    match p {
        Platform::Windows => "https://client-update.steamstatic.com/installer/steamcmd.zip"@,
        Platform::Unix => "https://steamcdn-a.akamaihd.net/client/installer/steamcmd_linux.tar.gz"@,
    }
}

/// The format of the archive at `scmd_url_of(p)`.
pub open spec fn scmd_format_of(p: Platform) -> ArchiveFormat {
    match p {
        Platform::Windows => ArchiveFormat::Zip,
        Platform::Unix => ArchiveFormat::TarGz,
    }
}

/// The file name a download from `url` is saved under: what follows the last
/// `/`, when that is not empty.
pub open spec fn url_file_name(url: Seq<char>) -> Option<Seq<char>> {
    let last = split_on(url, '/').last();
    if last.len() > 0 {
        Some(last)
    } else {
        None
    }
}

/// The result of parsing `input` as an absolute URL with the `url` crate's
/// `Url::parse`: the URL's serialisation, or the text of the parse error.
pub uninterp spec fn url_parse(input: Seq<char>) -> Result<Seq<char>, Seq<char>>;

/// Where a download is fetched from and written to.
#[derive(Clone, Debug, PartialEq, Eq)]
pub struct DownloadTarget {
    /// The URL as parsed and serialised.
    pub url: String,
    /// The finished archive.
    pub archive_path: String,
    /// The file written while the download is in progress.
    pub tmp_path: String,
}

/// The view of a `DownloadTarget`.
pub struct DownloadTargetView {
    pub url: Seq<char>,
    pub archive_path: Seq<char>,
    pub tmp_path: Seq<char>,
}

/// The view of a download target or of its error.
pub open spec fn download_target_view(r: Result<DownloadTarget, String>) -> Result<DownloadTargetView, Seq<char>> {
    match r {
        Ok(t) => Ok(DownloadTargetView { url: t.url@, archive_path: t.archive_path@, tmp_path: t.tmp_path@ }),
        Err(e) => Err(e@),
    }
}

/// Where a download of `url` into `dir` goes, given what parsing `url` gave.
/// The file name is derived first; an unusable URL is reported after it.
pub open spec fn download_target_of(
    p: Platform,
    url: Seq<char>,
    dir: Seq<char>,
    parsed: Result<Seq<char>, Seq<char>>,
) -> Result<DownloadTargetView, Seq<char>> {
    match url_file_name(url) {
        None => Err("cannot derive a file name from "@ + url),
        Some(name) => match parsed {
            Err(e) => Err("invalid SteamCMD URL "@ + url + ": "@ + e),
            Ok(u) => Ok(
                DownloadTargetView {
                    url: u,
                    archive_path: join_path(p, dir, name),
                    tmp_path: join_path(p, dir, name + ".tmp"@),
                },
            ),
        },
    }
}

/// Parses `input` as an absolute URL (`reqwest::Url::parse`, which is the
/// `url` crate's `Url::parse`). The contract claims only that the outcome is
/// the named function `url_parse` of the input: the serialised URL
/// (`Url::as_str`) on success, the error's `Display` text on failure.
#[verifier::external_body]
fn parse_url(input: &str) -> (r: Result<String, String>)
    ensures
        result_view(r) == url_parse(input@),
{
    match reqwest::Url::parse(input) {
        Ok(url) => Ok(url.as_str().to_string()),
        Err(e) => Err(e.to_string()),
    }
}

/// The tool's SteamCMD executable: `steamcmd` (`steamcmd.exe` on Windows) in
/// the configuration directory.
pub fn get_scmd_path(host: &HostEnv) -> (r: Result<String, String>)
    ensures
        result_view(r) == scmd_path_of(host@),
{
    let dir = Config::config_dir(host)?;
    match host.platform {
        Platform::Windows => Ok(join(Platform::Windows, dir.as_str(), "steamcmd.exe")),
        Platform::Unix => Ok(join(Platform::Unix, dir.as_str(), "steamcmd")),
    }
}

/// The directory the tool's SteamCMD is installed in: the configuration
/// directory, in which `get_scmd_path` names the executable.
pub fn get_scmd_dir(host: &HostEnv) -> (r: Result<String, String>)
    ensures
        result_view(r) == config_dir_of(host@),
        match (r, scmd_path_of(host@)) {
            (Ok(dir), Ok(path)) => path == join_path(host.platform, dir@, scmd_file_name(host.platform)),
            (Err(_), Err(_)) => true,
            _ => false,
        },
{
    Config::config_dir(host)
}

/// Whether the tool's SteamCMD is installed. It never is when its path cannot
/// be determined; otherwise the answer comes from the file system.
pub fn check_scmd_exists(host: &HostEnv) -> (b: bool)
    ensures
        scmd_path_of(host@) is Err ==> !b,
{
    match get_scmd_path(host) {
        Ok(path) => path_exists(path.as_str()),
        Err(_) => false,
    }
}

/// The staging folder `.pzmdli-staging` inside the configured target.
pub fn staging_dir(config: &Config, p: Platform) -> (r: String)
    ensures
        r@ == staging_dir_of(p, config.target_dir@),
{
    join(p, config.target_dir.as_str(), ".pzmdli-staging")
}

/// Where SteamCMD puts workshop item `item_id` under `staging_dir`.
pub fn build_workshop_item_folder_path(item_id: &str, staging_dir: &str, p: Platform) -> (r: String)
    ensures
        r@ == workshop_item_dir_of(p, item_id@, staging_dir@),
{
    let steamapps = join(p, staging_dir, "steamapps");
    let workshop = join(p, steamapps.as_str(), "workshop");
    let content = join(p, workshop.as_str(), "content");
    let app = join(p, content.as_str(), "108600");
    join(p, app.as_str(), item_id)
}

/// The SteamCMD command that downloads `item_ids` into `staging_dir` with an
/// anonymous login, run with the configured SteamCMD executable.
pub fn build_steamcmd_command(config: &Config, staging_dir: &str, item_ids: &Vec<String>) -> (c: SteamCmdCommand)
    ensures
        c.program@ == config.steamcmd_path@,
        string_views(c.args@) == steamcmd_args(staging_dir@, string_views(item_ids@)),
{
    let mut args: Vec<String> = Vec::new();
    args.push(String::from_str("+force_install_dir"));
    args.push(String::from_str(staging_dir));
    args.push(String::from_str("+login"));
    args.push(String::from_str("anonymous"));
    let ghost head = seq!["+force_install_dir"@, staging_dir@, "+login"@, "anonymous"@];
    assert(string_views(args@) =~= head);
    let ghost items = string_views(item_ids@);
    let mut i: usize = 0;
    assert(items.take(0) =~= Seq::<Seq<char>>::empty());
    assert(head + download_args(items.take(0)) =~= head);
    while i < item_ids.len()
        invariant
            items == string_views(item_ids@),
            i <= item_ids@.len(),
            string_views(args@) == head + download_args(items.take(i as int)),
        decreases item_ids.len() - i,
    {
        let ghost before = string_views(args@);
        args.push(String::from_str("+workshop_download_item"));
        args.push(String::from_str("108600"));
        args.push(item_ids[i].clone());
        assert(items.take(i + 1).drop_last() =~= items.take(i as int));
        assert(items.take(i + 1).last() == item_ids@[i as int]@);
        assert(string_views(args@) =~= before + seq![
            "+workshop_download_item"@,
            pz_app_id(),
            item_ids@[i as int]@,
        ]);
        i += 1;
    }
    let ghost before = string_views(args@);
    args.push(String::from_str("+quit"));
    assert(items.take(item_ids.len() as int) =~= items);
    assert(string_views(args@) =~= before.push("+quit"@));
    SteamCmdCommand { program: config.steamcmd_path.clone(), args }
}

/// Where SteamCMD is downloaded from on `p`, and the archive's format.
pub fn scmd_download_source(p: Platform) -> (r: (String, ArchiveFormat))
    ensures
        r.0@ == scmd_url_of(p),
        r.1 == scmd_format_of(p),
{
    match p {
        Platform::Windows => (
            String::from_str("https://client-update.steamstatic.com/installer/steamcmd.zip"),
            ArchiveFormat::Zip,
        ),
        Platform::Unix => (
            String::from_str("https://steamcdn-a.akamaihd.net/client/installer/steamcmd_linux.tar.gz"),
            ArchiveFormat::TarGz,
        ),
    }
}

/// Where a download of `url` into `dir` goes, given the outcome of parsing
/// `url`: the archive is named after the URL's last segment, and is written
/// under that name with `.tmp` appended until it is complete.
pub fn download_target_with(p: Platform, url: &str, dir: &str, parsed: Result<String, String>) -> (r: Result<DownloadTarget, String>)
    ensures
        download_target_view(r) == download_target_of(p, url@, dir@, result_view(parsed)),
{
    let pieces = split_on_char(url, '/');
    proof {
        lemma_split_nonempty(url@, '/');
    }
    let last = &pieces[pieces.len() - 1];
    if last.as_str().unicode_len() == 0 {
        return Err(String::from_str("cannot derive a file name from ").concat(url));
    }
    match parsed {
        Err(e) => {
            let msg = String::from_str("invalid SteamCMD URL ").concat(url).concat(": ").concat(
                e.as_str(),
            );
            Err(msg)
        },
        Ok(u) => {
            let tmp_name = last.clone().concat(".tmp");
            Ok(
                DownloadTarget {
                    url: u,
                    archive_path: join(p, dir, last.as_str()),
                    tmp_path: join(p, dir, tmp_name.as_str()),
                },
            )
        },
    }
}

/// Where a download of `url` into `dir` goes, parsing `url` on the way.
pub fn download_target(p: Platform, url: &str, dir: &str) -> (r: Result<DownloadTarget, String>)
    ensures
        download_target_view(r) == download_target_of(p, url@, dir@, url_parse(url@)),
{
    download_target_with(p, url, dir, parse_url(url))
}

} // verus!
