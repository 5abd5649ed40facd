//! Published releases: which of them belong to an update channel, and how
//! they are ordered by version.

use vstd::prelude::*;
use std::cmp::Ordering;
use vstd::string::StringExecFns;
use crate::text::{
    contains, ends_with, has_infix, has_suffix, lowercase, replace, replace_char, strip_leading,
    to_lowercase, trim, trim_start_matches, trimmed,
};

verus! {

/// A file attached to a release.
#[derive(Clone, Debug, PartialEq, Eq)]
pub struct GithubAsset {
    pub name: String,
    pub browser_download_url: String,
}

/// A release as the hosting service reports it.
#[derive(Clone, Debug, PartialEq, Eq)]
pub struct GithubRelease {
    pub tag_name: String,
    pub name: Option<String>,
    pub body: Option<String>,
    pub draft: bool,
    pub prerelease: bool,
    pub published_at: Option<String>,
    pub assets: Vec<GithubAsset>,
}

/// The train of releases that a user follows.
#[derive(Clone, Copy, Debug, PartialEq, Eq)]
pub enum UpdateChannel {
    /// Stable releases.
    Main,
    /// Pre-releases.
    Dev,
}

/// Whether a text is a version in the sense of Semantic Versioning 2.0.
pub uninterp spec fn semver_valid(text: Seq<char>) -> bool;

/// How two versions compare in the order of the `semver` crate: -1 where the
/// first is the lesser, 0 where neither is, 1 where the first is the greater.
pub uninterp spec fn semver_order(a: Seq<char>, b: Seq<char>) -> i8;

/// `semver::Version::parse`. Trusted: whether a text parses depends on the
/// text alone.
#[verifier::external_body]
fn is_semver(text: &str) -> (r: bool)
    ensures
        r == semver_valid(text@),
{
    semver::Version::parse(text).is_ok()
}

/// `Ord::cmp` of `semver::Version`, on two versions given as text. Trusted:
/// there is a result exactly if both texts parse, it depends on the two texts
/// alone, and it is -1, 0 or 1 for less, equal and greater.
#[verifier::external_body]
fn semver_compare(a: &str, b: &str) -> (r: Option<i8>)
    ensures
        r.is_some() == (semver_valid(a@) && semver_valid(b@)),
        r matches Some(c) ==> c == semver_order(a@, b@) && -1 <= c <= 1,
{
    match (semver::Version::parse(a), semver::Version::parse(b)) {
        (Ok(x), Ok(y)) => Some(
            match x.cmp(&y) {
                Ordering::Less => -1,
                Ordering::Equal => 0,
                Ordering::Greater => 1,
            },
        ),
        _ => None,
    }
}

/// The version that a tag names: the tag without white space around it and
/// without the `v`s before it, if that is a version.
pub open spec fn normalized(tag: Seq<char>) -> Option<Seq<char>> {
    let bare = strip_leading(trimmed(tag), 'v');
    if semver_valid(bare) {
        Some(bare)
    } else {
        None
    }
}

/// The version that a tag names, as text.
pub fn normalize_version(version: &str) -> (r: Option<String>)
    ensures
        match r {
            Some(text) => normalized(version@) == Some(text@),
            None => normalized(version@).is_none(),
        },
{
    let bare = trim_start_matches(trim(version), 'v');
    if is_semver(bare) {
        Some(bare.to_owned())
    } else {
        None
    }
}

/// The place of tag `a` relative to tag `b` where the newest version comes
/// first: -1 before it, 0 beside it, 1 after it. A tag that names no version
/// counts as older than any version.
pub open spec fn version_desc(a: Seq<char>, b: Seq<char>) -> i8 {
    match (normalized(b), normalized(a)) {
        (None, None) => 0i8,
        (None, Some(_)) => -1i8,
        (Some(_), None) => 1i8,
        (Some(x), Some(y)) => semver_order(x, y),
    }
}

/// The ordering that a place stands for.
pub open spec fn ordering_of(place: i8) -> Ordering {
    if place < 0 {
        Ordering::Less
    } else if place == 0 {
        Ordering::Equal
    } else {
        Ordering::Greater
    }
}

/// Orders two releases so that the newest version comes first.
pub fn release_version_desc(a: &GithubRelease, b: &GithubRelease) -> (r: Ordering)
    ensures
        r == ordering_of(version_desc(a.tag_name@, b.tag_name@)),
{
    let av = normalize_version(a.tag_name.as_str());
    let bv = normalize_version(b.tag_name.as_str());
    match (bv, av) {
        (None, None) => Ordering::Equal,
        (None, Some(_)) => Ordering::Less,
        (Some(_), None) => Ordering::Greater,
        (Some(x), Some(y)) => match semver_compare(x.as_str(), y.as_str()) {
            Some(c) => if c < 0 {
                Ordering::Less
            } else if c == 0 {
                Ordering::Equal
            } else {
                Ordering::Greater
            },
            None => Ordering::Equal,
        },
    }
}

/// Whether a release belongs to a channel: it is no draft, its tag names a
/// version, and it is a pre-release exactly if the channel is `Dev`.
pub open spec fn in_channel(release: GithubRelease, channel: UpdateChannel) -> bool {
    &&& !release.draft
    &&& normalized(release.tag_name@).is_some()
    &&& release.prerelease == (channel == UpdateChannel::Dev)
}

/// The releases of `s` that belong to a channel, in the order of `s`.
pub open spec fn channel_releases(s: Seq<GithubRelease>, channel: UpdateChannel) -> Seq<
    GithubRelease,
>
    decreases s.len(),
{
    if s.len() == 0 {
        Seq::empty()
    } else {
        let earlier = channel_releases(s.drop_last(), channel);
        if in_channel(s.last(), channel) {
            earlier.push(s.last())
        } else {
            earlier
        }
    }
}

/// Whether a release belongs to a channel.
pub fn belongs_to_channel(release: &GithubRelease, channel: &UpdateChannel) -> (r: bool)
    ensures
        r == in_channel(*release, *channel),
{
    if release.draft {
        return false;
    }
    if normalize_version(release.tag_name.as_str()).is_none() {
        return false;
    }
    match channel {
        UpdateChannel::Main => !release.prerelease,
        UpdateChannel::Dev => release.prerelease,
    }
}

/// The releases of a channel, in the order in which they came.
pub fn releases_for_channel(releases: Vec<GithubRelease>, channel: &UpdateChannel) -> (r: Vec<
    GithubRelease,
>)
    ensures
        r@ == channel_releases(releases@, *channel),
{
    let mut rest = releases;
    let mut kept: Vec<GithubRelease> = Vec::new();
    let ghost all = rest@;
    let ghost mut done: int = 0;
    proof {
        assert(all.take(0) =~= Seq::<GithubRelease>::empty());
    }
    while rest.len() > 0
        invariant
            0 <= done <= all.len(),
            rest@ == all.skip(done),
            kept@ == channel_releases(all.take(done), *channel),
        decreases rest.len(),
    {
        let release = rest.remove(0);
        proof {
            assert(release == all[done]);
            assert(rest@ =~= all.skip(done + 1));
            assert(all.take(done + 1).drop_last() =~= all.take(done));
            assert(all.take(done + 1).last() == release);
            done = done + 1;
        }
        if belongs_to_channel(&release, channel) {
            kept.push(release);
        }
    }
    proof {
        assert(all.take(done) =~= all);
    }
    kept
}

/// The stable releases: those of the main channel.
pub fn stable_releases(releases: Vec<GithubRelease>) -> (r: Vec<GithubRelease>)
    ensures
        r@ == channel_releases(releases@, UpdateChannel::Main),
{
    releases_for_channel(releases, &UpdateChannel::Main)
}

/// The name of a channel.
pub fn channel_name(channel: &UpdateChannel) -> (r: &'static str)
    ensures
        r@ == match *channel {
            UpdateChannel::Main => "main"@,
            UpdateChannel::Dev => "dev"@,
        },
{
    match channel {
        UpdateChannel::Main => "main",
        UpdateChannel::Dev => "dev",
    }
}

/// Whether two tags name the same release: they are equal but for white
/// space around them, or but for the `v`s before them.
pub fn tags_match(a: &str, b: &str) -> (r: bool)
    ensures
        r == (trimmed(a@) == trimmed(b@) || strip_leading(a@, 'v') == strip_leading(b@, 'v')),
{
    let ta = trim(a).to_owned();
    let tb = trim(b).to_owned();
    if ta == tb {
        return true;
    }
    let va = trim_start_matches(a, 'v').to_owned();
    let vb = trim_start_matches(b, 'v').to_owned();
    va == vb
}

/// A release as the list of versions shows it.
#[derive(Clone, Debug, PartialEq, Eq)]
pub struct ReleaseVersion {
    pub tag: String,
    pub name: String,
    pub published_at: Option<String>,
}

/// An update that is on offer.
#[derive(Clone, Debug, PartialEq, Eq)]
pub struct UpdateInfo {
    pub tag: String,
    pub name: String,
    pub notes: Option<String>,
    pub published_at: Option<String>,
}

/// Why no release was chosen.
#[derive(Clone, Copy, Debug, PartialEq, Eq)]
pub enum UpdateError {
    /// The version that is running is no version.
    InvalidCurrentVersion,
    /// The channel has no release.
    NoReleaseInChannel,
    /// No stable release has the tag asked for.
    ReleaseNotFound,
    /// The release has no disk image attached.
    NoInstaller,
}

/// Whether two versions are equal to the `semver` crate.
pub uninterp spec fn semver_same(a: Seq<char>, b: Seq<char>) -> bool;

/// `PartialEq::eq` of `semver::Version`, on two versions given as text.
/// Trusted: there is a result exactly if both texts parse, and it depends on
/// the two texts alone.
#[verifier::external_body]
fn semver_equal(a: &str, b: &str) -> (r: Option<bool>)
    ensures
        r.is_some() == (semver_valid(a@) && semver_valid(b@)),
        r matches Some(e) ==> e == semver_same(a@, b@),
{
    match (semver::Version::parse(a), semver::Version::parse(b)) {
        (Ok(x), Ok(y)) => Some(x == y),
        _ => None,
    }
}

/// `sorted` holds the releases of `input`, each as often as `input` does,
/// and none of them stands before a newer one.
pub open spec fn newest_first(input: Seq<GithubRelease>, sorted: Seq<GithubRelease>) -> bool {
    &&& sorted.to_multiset() == input.to_multiset()
    &&& forall|i: int, j: int|
        0 <= i < j < sorted.len() ==> version_desc(
            (#[trigger] sorted[i]).tag_name@,
            (#[trigger] sorted[j]).tag_name@,
        ) <= 0
}

/// `slice::sort_by` of the standard library, with `release_version_desc` as
/// the order. Trusted: the vector holds afterwards what it held before, and
/// no release stands before one that the order puts first.
#[verifier::external_body]
fn sort_newest_first(releases: &mut Vec<GithubRelease>)
    ensures
        newest_first(old(releases)@, final(releases)@),
{
    releases.sort_by(release_version_desc);
}

/// The releases ordered so that the newest version comes first.
pub fn newest_releases_first(releases: Vec<GithubRelease>) -> (r: Vec<GithubRelease>)
    ensures
        newest_first(releases@, r@),
{
    let mut sorted = releases;
    sort_newest_first(&mut sorted);
    sorted
}

/// The name under which a release is shown: its own, or else its tag.
pub open spec fn shown_name(release: GithubRelease) -> String {
    match release.name {
        Some(name) => name,
        None => release.tag_name,
    }
}

/// The entry of a release in the list of versions.
pub open spec fn version_entry(release: GithubRelease) -> ReleaseVersion {
    ReleaseVersion {
        tag: release.tag_name,
        name: shown_name(release),
        published_at: release.published_at,
    }
}

/// A release as an update on offer.
pub open spec fn update_entry(release: GithubRelease) -> UpdateInfo {
    UpdateInfo {
        tag: release.tag_name,
        name: shown_name(release),
        notes: release.body,
        published_at: release.published_at,
    }
}

/// The entry of a release in the list of versions.
pub fn release_version_of(release: GithubRelease) -> (r: ReleaseVersion)
    ensures
        r == version_entry(release),
{
    let GithubRelease { tag_name, name, published_at, .. } = release;
    let shown = match name {
        Some(n) => n,
        None => tag_name.clone(),
    };
    ReleaseVersion { tag: tag_name, name: shown, published_at }
}

/// A release as an update on offer.
pub fn update_info_of(release: GithubRelease) -> (r: UpdateInfo)
    ensures
        r == update_entry(release),
{
    let GithubRelease { tag_name, name, body, published_at, .. } = release;
    let shown = match name {
        Some(n) => n,
        None => tag_name.clone(),
    };
    UpdateInfo { tag: tag_name, name: shown, notes: body, published_at }
}

/// The stable releases, newest first, as the list of versions shows them.
pub fn list_release_versions(releases: Vec<GithubRelease>) -> (r: Vec<ReleaseVersion>)
    ensures
        exists|sorted: Seq<GithubRelease>| #[trigger]
            newest_first(channel_releases(releases@, UpdateChannel::Main), sorted) && r@
                == sorted.map_values(|release: GithubRelease| version_entry(release)),
{
    let mut rest = newest_releases_first(stable_releases(releases));
    let ghost sorted = rest@;
    let ghost mut done: int = 0;
    let mut out: Vec<ReleaseVersion> = Vec::new();
    while rest.len() > 0
        invariant
            0 <= done <= sorted.len(),
            rest@ == sorted.skip(done),
            out@ == sorted.take(done).map_values(|release: GithubRelease| version_entry(release)),
        decreases rest.len(),
    {
        let release = rest.remove(0);
        let ghost before = out@;
        out.push(release_version_of(release));
        proof {
            assert(release == sorted[done]);
            assert(rest@ =~= sorted.skip(done + 1));
            assert(out@ =~= sorted.take(done + 1).map_values(
                |release: GithubRelease| version_entry(release),
            ));
            done = done + 1;
        }
    }
    proof {
        assert(sorted.take(done) =~= sorted);
    }
    out
}

/// Whether the release tagged `tag` is an update for someone who runs
/// version `current` on a channel. On the main channel it is one exactly if
/// its version is greater. On the dev channel it is one unless its version
/// equals the one that runs, so that users are led to the newest pre-release
/// whatever the style of their own version.
pub open spec fn offers_update(channel: UpdateChannel, current: Seq<char>, tag: Seq<char>) -> bool {
    match normalized(tag) {
        Some(version) => match channel {
            UpdateChannel::Dev => !semver_same(version, current),
            UpdateChannel::Main => semver_order(version, current) > 0,
        },
        None => channel == UpdateChannel::Dev,
    }
}

/// The first release of `s` that is an update.
pub open spec fn first_offer(s: Seq<GithubRelease>, channel: UpdateChannel, current: Seq<char>)
    -> Option<GithubRelease>
    decreases s.len(),
{
    if s.len() == 0 {
        None
    } else if offers_update(channel, current, s[0].tag_name@) {
        Some(s[0])
    } else {
        first_offer(s.drop_first(), channel, current)
    }
}

fn update_offered(channel: &UpdateChannel, current: &str, tag: &str) -> (r: bool)
    requires
        semver_valid(current@),
    ensures
        r == offers_update(*channel, current@, tag@),
{
    match normalize_version(tag) {
        Some(version) => match channel {
            UpdateChannel::Dev => match semver_equal(version.as_str(), current) {
                Some(same) => !same,
                None => true,
            },
            UpdateChannel::Main => match semver_compare(version.as_str(), current) {
                Some(c) => c > 0,
                None => false,
            },
        },
        None => match channel {
            UpdateChannel::Dev => true,
            UpdateChannel::Main => false,
        },
    }
}

/// What `check_channel_update` owes for a current version that is one.
pub open spec fn is_update_choice(
    releases: Seq<GithubRelease>,
    channel: UpdateChannel,
    current: Seq<char>,
    choice: Option<UpdateInfo>,
) -> bool {
    exists|sorted: Seq<GithubRelease>| #[trigger]
        newest_first(channel_releases(releases, channel), sorted) && choice == match first_offer(
            sorted,
            channel,
            current,
        ) {
            Some(release) => Some(update_entry(release)),
            None => None,
        }
}

/// The update, if any, for someone who runs `current_version` on a channel:
/// the first of the channel's releases, newest first, that is an update.
pub fn check_channel_update(
    current_version: &str,
    channel: &UpdateChannel,
    releases: Vec<GithubRelease>,
) -> (r: Result<Option<UpdateInfo>, UpdateError>)
    ensures
        match normalized(current_version@) {
            None => r == Err::<Option<UpdateInfo>, UpdateError>(UpdateError::InvalidCurrentVersion),
            Some(current) => r matches Ok(choice) && is_update_choice(
                releases@,
                *channel,
                current,
                choice,
            ),
        },
{
    let current = match normalize_version(current_version) {
        Some(c) => c,
        None => {
            return Err(UpdateError::InvalidCurrentVersion);
        },
    };
    let mut rest = newest_releases_first(releases_for_channel(releases, channel));
    let ghost sorted = rest@;
    while rest.len() > 0
        invariant
            semver_valid(current@),
            normalized(current_version@) == Some(current@),
            newest_first(channel_releases(releases@, *channel), sorted),
            first_offer(sorted, *channel, current@) == first_offer(rest@, *channel, current@),
        decreases rest.len(),
    {
        let ghost before = rest@;
        let release = rest.remove(0);
        proof {
            assert(release == before[0]);
            assert(rest@ =~= before.drop_first());
        }
        if update_offered(channel, current.as_str(), release.tag_name.as_str()) {
            proof {
                assert(first_offer(before, *channel, current@) == Some(release));
                assert(newest_first(channel_releases(releases@, *channel), sorted));
            }
            return Ok(Some(update_info_of(release)));
        }
    }
    proof {
        assert(first_offer(rest@, *channel, current@).is_none());
        assert(newest_first(channel_releases(releases@, *channel), sorted));
    }
    Ok(None)
}

/// The newest release of a channel, which is the one to install; an error
/// where the channel has none.
pub fn latest_in_channel(releases: Vec<GithubRelease>, channel: &UpdateChannel) -> (r: Result<
    GithubRelease,
    UpdateError,
>)
    ensures
        exists|sorted: Seq<GithubRelease>| #[trigger]
            newest_first(channel_releases(releases@, *channel), sorted) && r == if sorted.len()
                > 0 {
                Ok::<GithubRelease, UpdateError>(sorted[0])
            } else {
                Err::<GithubRelease, UpdateError>(UpdateError::NoReleaseInChannel)
            },
{
    let mut sorted = newest_releases_first(releases_for_channel(releases, channel));
    if sorted.len() > 0 {
        Ok(sorted.remove(0))
    } else {
        Err(UpdateError::NoReleaseInChannel)
    }
}

/// The first release of `s` whose tag matches `tag`.
pub open spec fn first_tagged(s: Seq<GithubRelease>, tag: Seq<char>) -> Option<GithubRelease>
    decreases s.len(),
{
    if s.len() == 0 {
        None
    } else if trimmed(s[0].tag_name@) == trimmed(tag) || strip_leading(s[0].tag_name@, 'v')
        == strip_leading(tag, 'v') {
        Some(s[0])
    } else {
        first_tagged(s.drop_first(), tag)
    }
}

/// The stable release with the given tag; an error where there is none.
pub fn find_release(releases: Vec<GithubRelease>, tag: &str) -> (r: Result<
    GithubRelease,
    UpdateError,
>)
    ensures
        r == match first_tagged(channel_releases(releases@, UpdateChannel::Main), tag@) {
            Some(release) => Ok::<GithubRelease, UpdateError>(release),
            None => Err::<GithubRelease, UpdateError>(UpdateError::ReleaseNotFound),
        },
{
    let mut rest = stable_releases(releases);
    let ghost stable = rest@;
    while rest.len() > 0
        invariant
            stable == channel_releases(releases@, UpdateChannel::Main),
            first_tagged(stable, tag@) == first_tagged(rest@, tag@),
        decreases rest.len(),
    {
        let ghost before = rest@;
        let release = rest.remove(0);
        proof {
            assert(release == before[0]);
            assert(rest@ =~= before.drop_first());
        }
        if tags_match(release.tag_name.as_str(), tag) {
            proof {
                assert(first_tagged(before, tag@) == Some(release));
            }
            return Ok(release);
        }
    }
    Err(UpdateError::ReleaseNotFound)
}

/// Whether a file is a disk image: its name ends in `.dmg`, in any case.
pub open spec fn is_dmg(asset: GithubAsset) -> bool {
    has_suffix(lowercase(asset.name@), ".dmg"@)
}

/// Whether a file's name says that it is built for a machine architecture.
/// Only `aarch64` and `x86_64` have names to look for.
pub open spec fn built_for(asset: GithubAsset, arch: Seq<char>) -> bool {
    if arch == "aarch64"@ {
        has_infix(asset.name@, "aarch64"@) || has_infix(asset.name@, "arm64"@)
    } else if arch == "x86_64"@ {
        has_infix(asset.name@, "x86_64"@) || has_infix(asset.name@, "amd64"@)
    } else {
        false
    }
}

/// The index of the disk image to install among `assets`: the first one
/// built for the architecture, or else the first one at all.
pub open spec fn dmg_choice(assets: Seq<GithubAsset>, arch: Seq<char>, i: int) -> bool {
    &&& 0 <= i < assets.len()
    &&& is_dmg(assets[i])
    &&& if built_for(assets[i], arch) {
        forall|j: int| 0 <= j < i ==> !(is_dmg(#[trigger] assets[j]) && built_for(assets[j], arch))
    } else {
        &&& forall|j: int| 0 <= j < i ==> !is_dmg(#[trigger] assets[j])
        &&& forall|j: int|
            0 <= j < assets.len() ==> !(is_dmg(#[trigger] assets[j]) && built_for(assets[j], arch))
    }
}

fn is_dmg_asset(asset: &GithubAsset) -> (r: bool)
    ensures
        r == is_dmg(*asset),
{
    let lower = to_lowercase(asset.name.as_str());
    ends_with(lower.as_str(), ".dmg")
}

fn is_built_for(asset: &GithubAsset, arch: &str) -> (r: bool)
    ensures
        r == built_for(*asset, arch@),
{
    let machine = arch.to_owned();
    if machine == "aarch64".to_owned() {
        contains(asset.name.as_str(), "aarch64") || contains(asset.name.as_str(), "arm64")
    } else if machine == "x86_64".to_owned() {
        contains(asset.name.as_str(), "x86_64") || contains(asset.name.as_str(), "amd64")
    } else {
        false
    }
}

/// The disk image to install on a machine of architecture `arch`; `None`
/// where the release has no disk image.
pub fn pick_dmg_asset(assets: &Vec<GithubAsset>, arch: &str) -> (r: Option<GithubAsset>)
    ensures
        match r {
            Some(asset) => exists|i: int| #[trigger] dmg_choice(assets@, arch@, i) && asset == assets[i],
            None => forall|i: int| 0 <= i < assets.len() ==> !is_dmg(#[trigger] assets[i]),
        },
{
    let mut first_dmg: Option<usize> = None;
    let mut i: usize = 0;
    while i < assets.len()
        invariant
            i <= assets.len(),
            forall|j: int| 0 <= j < i ==> !(is_dmg(#[trigger] assets[j]) && built_for(assets[j], arch@)),
            match first_dmg {
                Some(f) => f < i && is_dmg(assets[f as int]) && forall|j: int|
                    0 <= j < f ==> !is_dmg(#[trigger] assets[j]),
                None => forall|j: int| 0 <= j < i ==> !is_dmg(#[trigger] assets[j]),
            },
        decreases assets.len() - i,
    {
        if is_dmg_asset(&assets[i]) {
            if is_built_for(&assets[i], arch) {
                assert(dmg_choice(assets@, arch@, i as int));
                return Some(duplicate_asset(&assets[i]));
            }
            if first_dmg.is_none() {
                first_dmg = Some(i);
            }
        }
        i = i + 1;
    }
    match first_dmg {
        Some(f) => {
            assert(dmg_choice(assets@, arch@, f as int));
            Some(duplicate_asset(&assets[f]))
        },
        None => None,
    }
}

fn duplicate_asset(asset: &GithubAsset) -> (r: GithubAsset)
    ensures
        r == *asset,
{
    GithubAsset {
        name: asset.name.clone(),
        browser_download_url: asset.browser_download_url.clone(),
    }
}

/// The name of the file in which the installer of a release is kept: the
/// tag with a hyphen for each slash, between `LockPilot-` and `.dmg`.
pub open spec fn installer_name(tag: Seq<char>) -> Seq<char> {
    "LockPilot-"@ + replace_char(tag, '/', "-"@) + ".dmg"@
}

/// The name of the file in which the installer of a release is kept.
pub fn installer_file_name(tag: &str) -> (r: String)
    ensures
        r@ == installer_name(tag@),
{
    let safe_tag = replace(tag, '/', "-");
    "LockPilot-".to_owned().concat(safe_tag.as_str()).concat(".dmg")
}

} // verus!
