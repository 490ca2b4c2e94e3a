//! Deciding whether a newer release exists and when to look for one.

use crate::numeric::{parse_u32, u32_value};
use crate::text::{chars_of, contains_text, has_text, str_eq, string_of};
use vstd::prelude::*;

verus! {

/// What is known about the newest release.
#[derive(Debug, Clone)]
pub struct UpdateInfo {
    pub current_version: String,
    pub latest_version: String,
    pub has_update: bool,
    pub download_url: String,
    pub release_notes: String,
    pub published_at: String,
    pub platform_specific_url: Option<String>,
    pub file_size: Option<u64>,
}

/// The user's settings for update checks.
#[derive(Debug, Clone, Copy)]
pub struct UpdateSettings {
    pub auto_check: bool,
    /// When updates were last looked for, in seconds since the Unix epoch.
    pub last_check_time: u64,
    /// How many hours to wait between two checks; zero stands for the default.
    pub check_interval_hours: u64,
}

/// The platform the program runs on.
#[derive(Debug)]
pub struct PlatformInfo {
    pub platform: String,
    pub arch: String,
    pub os_family: String,
}

/// How many hours lie between two checks unless the user says otherwise.
pub const DEFAULT_CHECK_INTERVAL_HOURS: u64 = 24;

/// How many hours lie between two checks unless the user says otherwise.
pub fn default_check_interval() -> (hours: u64)
    ensures
        hours == DEFAULT_CHECK_INTERVAL_HOURS,
{
    DEFAULT_CHECK_INTERVAL_HOURS
}

impl Default for UpdateSettings {
    fn default() -> (settings: Self)
        ensures
            settings.auto_check,
            settings.last_check_time == 0,
            settings.check_interval_hours == DEFAULT_CHECK_INTERVAL_HOURS,
    {
        Self {
            auto_check: true,
            last_check_time: 0,
            check_interval_hours: DEFAULT_CHECK_INTERVAL_HOURS,
        }
    }
}

/// The hours to wait between two checks under `settings`.
pub open spec fn check_interval(settings: UpdateSettings) -> u64 {
    if settings.check_interval_hours > 0 {
        settings.check_interval_hours
    } else {
        DEFAULT_CHECK_INTERVAL_HOURS
    }
}

/// The whole hours that have passed at `now` since the last check; none
/// where the last check lies ahead of `now`.
pub open spec fn hours_since_check(settings: UpdateSettings, now: u64) -> int {
    if now >= settings.last_check_time {
        (now - settings.last_check_time) / 3600
    } else {
        0
    }
}

/// Whether updates are due to be looked for at `now`, in seconds since the
/// Unix epoch: the user wants automatic checks, and the interval has passed
/// since the last one.
pub fn should_check_for_updates(settings: &UpdateSettings, now: u64) -> (due: bool)
    ensures
        due == (settings.auto_check && hours_since_check(*settings, now) >= check_interval(
            *settings,
        )),
{
    if !settings.auto_check {
        return false;
    }
    let elapsed_hours: u64 = if now >= settings.last_check_time {
        (now - settings.last_check_time) / 3600
    } else {
        0
    };
    let interval: u64 = if settings.check_interval_hours > 0 {
        settings.check_interval_hours
    } else {
        DEFAULT_CHECK_INTERVAL_HOURS
    };
    elapsed_hours >= interval
}

/// A file attached to a release.
#[derive(Debug)]
pub struct GitHubAsset {
    pub name: String,
    pub browser_download_url: String,
    pub size: u64,
}

/// The endings of installer names that suit a platform, best first.
pub open spec fn installer_endings(os_family: Seq<char>, arch: Seq<char>) -> Seq<Seq<char>> {
    if os_family == "windows"@ {
        if contains_text(arch, "x86_64"@) || contains_text(arch, "amd64"@) {
            seq!["x64_setup.exe"@, "x64.msi"@, "setup.exe"@, ".exe"@]
        } else {
            seq![".exe"@, ".msi"@]
        }
    } else if os_family == "macos"@ {
        if contains_text(arch, "aarch64"@) || contains_text(arch, "arm64"@) {
            seq!["aarch64.dmg"@, "arm64.dmg"@, "universal.dmg"@, ".dmg"@]
        } else {
            seq!["x86_64.dmg"@, ".dmg"@, ".app.tar.gz"@]
        }
    } else if os_family == "linux"@ {
        if contains_text(arch, "x86_64"@) || contains_text(arch, "amd64"@) {
            seq!["amd64.AppImage"@, "x86_64.AppImage"@, ".AppImage"@, ".deb"@, ".rpm"@]
        } else {
            seq![".AppImage"@, ".deb"@, ".rpm"@]
        }
    } else {
        Seq::empty()
    }
}

/// The index of the first asset whose name holds `pattern`, or the number
/// of assets.
pub open spec fn asset_with(assets: Seq<GitHubAsset>, pattern: Seq<char>) -> int
    decreases assets.len(),
{
    if assets.len() == 0 {
        0
    } else if contains_text(assets[0].name@, pattern) {
        0
    } else {
        1 + asset_with(assets.skip(1), pattern)
    }
}

/// The download address of the asset that suits best: patterns are tried
/// from index `from` on, and the first pattern that some asset's name holds
/// decides, in favour of the first such asset.
pub open spec fn best_download(assets: Seq<GitHubAsset>, patterns: Seq<Seq<char>>, from: int)
    -> Option<Seq<char>>
    decreases patterns.len() - from,
{
    if from < 0 || from >= patterns.len() {
        None
    } else if asset_with(assets, patterns[from]) < assets.len() {
        Some(assets[asset_with(assets, patterns[from])].browser_download_url@)
    } else {
        best_download(assets, patterns, from + 1)
    }
}

/// Where the first asset with a pattern stands is where none before it has it.
pub proof fn lemma_asset_with(assets: Seq<GitHubAsset>, pattern: Seq<char>, at: int)
    requires
        0 <= at <= assets.len(),
        forall|k: int| 0 <= k < at ==> !contains_text(assets[k].name@, pattern),
        at < assets.len() ==> contains_text(assets[at].name@, pattern),
    ensures
        asset_with(assets, pattern) == at,
    decreases assets.len(),
{
    if assets.len() > 0 && at > 0 {
        assert(!contains_text(assets[0].name@, pattern));
        let rest = assets.skip(1);
        assert forall|k: int| 0 <= k < at - 1 implies !contains_text(rest[k].name@, pattern) by {
            assert(rest[k] == assets[k + 1]);
        }
        lemma_asset_with(rest, pattern, at - 1);
    }
}

/// The endings of installer names that suit a platform, best first.
fn installer_endings_for(os_family: &str, arch: &str) -> (endings: Vec<&'static str>)
    ensures
        endings@.map_values(|e: &'static str| e@) == installer_endings(os_family@, arch@),
{
    let wide = has_text(arch, "x86_64") || has_text(arch, "amd64");
    let arm = has_text(arch, "aarch64") || has_text(arch, "arm64");
    let endings: Vec<&'static str> = if str_eq(os_family, "windows") {
        if wide {
            vec!["x64_setup.exe", "x64.msi", "setup.exe", ".exe"]
        } else {
            vec![".exe", ".msi"]
        }
    } else if str_eq(os_family, "macos") {
        if arm {
            vec!["aarch64.dmg", "arm64.dmg", "universal.dmg", ".dmg"]
        } else {
            vec!["x86_64.dmg", ".dmg", ".app.tar.gz"]
        }
    } else if str_eq(os_family, "linux") {
        if wide {
            vec!["amd64.AppImage", "x86_64.AppImage", ".AppImage", ".deb", ".rpm"]
        } else {
            vec![".AppImage", ".deb", ".rpm"]
        }
    } else {
        Vec::new()
    };
    assert(endings@.map_values(|e: &'static str| e@) =~= installer_endings(os_family@, arch@));
    endings
}

/// The download address of the release asset that suits the platform
/// best, if any does.
pub fn get_platform_download_url(assets: &Vec<GitHubAsset>, os_family: &str, arch: &str) -> (url:
    Option<String>)
    ensures
        match url {
            Some(u) => best_download(assets@, installer_endings(os_family@, arch@), 0) == Some(u@),
            None => best_download(assets@, installer_endings(os_family@, arch@), 0) is None,
        },
{
    let patterns = installer_endings_for(os_family, arch);
    let ghost wanted = installer_endings(os_family@, arch@);
    let mut p: usize = 0;
    while p < patterns.len()
        invariant
            p <= patterns@.len(),
            wanted == installer_endings(os_family@, arch@),
            wanted == patterns@.map_values(|e: &'static str| e@),
            best_download(assets@, wanted, 0) == best_download(assets@, wanted, p as int),
        decreases patterns@.len() - p,
    {
        let pattern = patterns[p];
        assert(wanted[p as int] == pattern@);
        let mut a: usize = 0;
        while a < assets.len() && !has_text(assets[a].name.as_str(), pattern)
            invariant
                a <= assets@.len(),
                forall|k: int| 0 <= k < a ==> !contains_text(assets@[k].name@, pattern@),
            decreases assets@.len() - a,
        {
            a += 1;
        }
        proof {
            lemma_asset_with(assets@, pattern@, a as int);
        }
        if a < assets.len() {
            return Some(assets[a].browser_download_url.clone());
        }
        p += 1;
    }
    None
}

/// The index of the first asset whose download address is `url`, or the
/// number of assets.
pub open spec fn asset_at(assets: Seq<GitHubAsset>, url: Seq<char>) -> int
    decreases assets.len(),
{
    if assets.len() == 0 {
        0
    } else if assets[0].browser_download_url@ == url {
        0
    } else {
        1 + asset_at(assets.skip(1), url)
    }
}

/// Where the first asset with an address stands is where none before it has it.
pub proof fn lemma_asset_at(assets: Seq<GitHubAsset>, url: Seq<char>, at: int)
    requires
        0 <= at <= assets.len(),
        forall|k: int| 0 <= k < at ==> assets[k].browser_download_url@ != url,
        at < assets.len() ==> assets[at].browser_download_url@ == url,
    ensures
        asset_at(assets, url) == at,
    decreases assets.len(),
{
    if assets.len() > 0 && at > 0 {
        assert(assets[0].browser_download_url@ != url);
        let rest = assets.skip(1);
        assert forall|k: int| 0 <= k < at - 1 implies rest[k].browser_download_url@ != url by {
            assert(rest[k] == assets[k + 1]);
        }
        lemma_asset_at(rest, url, at - 1);
    }
}

/// The size of the first asset that is downloaded from `url`.
pub fn get_file_size(assets: &Vec<GitHubAsset>, url: &str) -> (size: Option<u64>)
    ensures
        size == (if asset_at(assets@, url@) < assets@.len() {
            Some(assets@[asset_at(assets@, url@)].size)
        } else {
            None
        }),
{
    let mut a: usize = 0;
    while a < assets.len() && !str_eq(assets[a].browser_download_url.as_str(), url)
        invariant
            a <= assets@.len(),
            forall|k: int| 0 <= k < a ==> assets@[k].browser_download_url@ != url@,
        decreases assets@.len() - a,
    {
        a += 1;
    }
    proof {
        lemma_asset_at(assets@, url@, a as int);
    }
    if a < assets.len() {
        Some(assets[a].size)
    } else {
        None
    }
}

/// The pieces that `s` falls into at each `sep`; a text without `sep` is
/// one piece, and so is the empty text.
pub open spec fn split_on(s: Seq<char>, sep: char) -> Seq<Seq<char>>
    decreases s.len(),
{
    if s.len() == 0 {
        seq![Seq::empty()]
    } else if s.last() == sep {
        split_on(s.drop_last(), sep).push(Seq::empty())
    } else {
        split_on(s.drop_last(), sep).update(
            split_on(s.drop_last(), sep).len() - 1,
            split_on(s.drop_last(), sep).last().push(s.last()),
        )
    }
}

/// The numbers among `pieces`, in order: each piece that reads as a `u32`.
pub open spec fn numbers_among(pieces: Seq<Seq<char>>) -> Seq<u32>
    decreases pieces.len(),
{
    if pieces.len() == 0 {
        Seq::empty()
    } else {
        match u32_value(pieces.last()) {
            Some(n) => numbers_among(pieces.drop_last()).push(n),
            None => numbers_among(pieces.drop_last()),
        }
    }
}

/// The numbers of a version such as `1.2.3`: its dot-separated pieces that
/// read as numbers.
pub open spec fn version_numbers(version: Seq<char>) -> Seq<u32> {
    numbers_among(split_on(version, '.'))
}

/// The number at `index`, or zero past the end.
pub open spec fn part_at(parts: Seq<u32>, index: int) -> u32 {
    if 0 <= index < parts.len() {
        parts[index]
    } else {
        0
    }
}

/// `a` comes after `b` when both are compared number by number from
/// `index` on, a missing number counting as zero.
pub open spec fn comes_after(a: Seq<u32>, b: Seq<u32>, index: int) -> bool
    decreases a.len() + b.len() - index,
{
    if index < 0 || (index >= a.len() && index >= b.len()) {
        false
    } else if part_at(a, index) > part_at(b, index) {
        true
    } else if part_at(a, index) < part_at(b, index) {
        false
    } else {
        comes_after(a, b, index + 1)
    }
}

/// Splits `text` at each `sep`.
pub fn split_text(text: &str, sep: char) -> (pieces: Vec<String>)
    ensures
        pieces@.map_values(|p: String| p@) == split_on(text@, sep),
{
    let chars = chars_of(text);
    let mut pieces: Vec<String> = Vec::new();
    let mut piece: Vec<char> = Vec::new();
    let mut i: usize = 0;
    proof {
        assert(chars@.take(0) == Seq::<char>::empty());
        assert(pieces@.map_values(|p: String| p@).push(piece@) =~= split_on(chars@.take(0), sep));
    }
    while i < chars.len()
        invariant
            i <= chars@.len(),
            pieces@.map_values(|p: String| p@).push(piece@) == split_on(chars@.take(i as int), sep),
        decreases chars@.len() - i,
    {
        proof {
            assert(chars@.take(i + 1).drop_last() == chars@.take(i as int));
            assert(chars@.take(i + 1).last() == chars@[i as int]);
        }
        let ghost before = pieces@.map_values(|p: String| p@);
        let ghost open = piece@;
        if chars[i] == sep {
            let done = string_of(&piece);
            pieces.push(done);
            piece = Vec::new();
            assert(pieces@.map_values(|p: String| p@) =~= before.push(open));
        } else {
            piece.push(chars[i]);
            assert(before.push(piece@) =~= before.push(open).update(
                before.len() as int,
                open.push(chars@[i as int]),
            ));
        }
        i += 1;
    }
    proof {
        assert(chars@.take(i as int) == chars@);
    }
    let ghost before = pieces@.map_values(|p: String| p@);
    let last = string_of(&piece);
    pieces.push(last);
    assert(pieces@.map_values(|p: String| p@) =~= before.push(piece@));
    pieces
}

/// Reads the numbers of a version.
pub fn parse_version(version: &str) -> (parts: Vec<u32>)
    ensures
        parts@ == version_numbers(version@),
{
    let pieces = split_text(version, '.');
    let ghost model = pieces@.map_values(|p: String| p@);
    let mut parts: Vec<u32> = Vec::new();
    let mut i: usize = 0;
    assert(model.take(0) =~= Seq::<Seq<char>>::empty());
    while i < pieces.len()
        invariant
            i <= pieces@.len(),
            model == pieces@.map_values(|p: String| p@),
            parts@ == numbers_among(model.take(i as int)),
        decreases pieces@.len() - i,
    {
        proof {
            assert(model.take(i + 1).drop_last() =~= model.take(i as int));
            assert(model.take(i + 1).last() == pieces@[i as int]@);
        }
        match parse_u32(pieces[i].as_str()) {
            Some(n) => {
                parts.push(n);
            },
            None => {},
        }
        i += 1;
    }
    proof {
        assert(model.take(i as int) =~= model);
    }
    parts
}

/// Whether the version `latest` is newer than `current`: both are compared
/// number by number, a missing number counting as zero.
pub fn compare_versions(latest: &str, current: &str) -> (newer: bool)
    ensures
        newer == comes_after(version_numbers(latest@), version_numbers(current@), 0),
{
    let a = parse_version(latest);
    let b = parse_version(current);
    let mut i: usize = 0;
    while i < a.len() || i < b.len()
        invariant
            a@ == version_numbers(latest@),
            b@ == version_numbers(current@),
            comes_after(a@, b@, 0) == comes_after(a@, b@, i as int),
        decreases a@.len() + b@.len() - i,
    {
        let x: u32 = if i < a.len() {
            a[i]
        } else {
            0
        };
        let y: u32 = if i < b.len() {
            b[i]
        } else {
            0
        };
        if x > y {
            return true;
        } else if x < y {
            return false;
        }
        i += 1;
    }
    false
}

} // verus!
