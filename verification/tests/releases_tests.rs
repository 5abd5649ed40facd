use lockpilot::releases::{
    belongs_to_channel, channel_name, check_channel_update, find_release, installer_file_name,
    latest_in_channel,
    list_release_versions, newest_releases_first, normalize_version, pick_dmg_asset,
    release_version_desc, release_version_of, releases_for_channel, stable_releases, tags_match,
    update_info_of, GithubAsset, GithubRelease, ReleaseVersion, UpdateChannel, UpdateError, UpdateInfo,
};
use std::cmp::Ordering;

fn release(tag: &str, draft: bool, prerelease: bool) -> GithubRelease {
    GithubRelease {
        tag_name: tag.to_string(),
        name: None,
        body: None,
        draft,
        prerelease,
        published_at: None,
        assets: Vec::new(),
    }
}

fn tags(list: &[GithubRelease]) -> Vec<String> {
    list.iter().map(|r| r.tag_name.clone()).collect()
}

#[test]
fn channel_names() {
    assert_eq!(channel_name(&UpdateChannel::Main), "main");
    assert_eq!(channel_name(&UpdateChannel::Dev), "dev");
}

#[test]
fn tags_match_up_to_white_space_or_leading_v() {
    assert!(tags_match("v1.2.3", "1.2.3"));
    assert!(tags_match(" v1.2.3 ", "v1.2.3"));
    assert!(tags_match("vv1.0.0", "1.0.0"));
    assert!(tags_match("1.0.0", "1.0.0"));
    assert!(!tags_match("v1.2.3", "v1.2.4"));
    assert!(!tags_match(" v1.2.3", "1.2.3"));
    assert!(!tags_match("V1.2.3", "1.2.3"));
}

#[test]
fn normalize_version_strips_white_space_and_v() {
    assert_eq!(normalize_version(" v1.2.3\n"), Some("1.2.3".to_string()));
    assert_eq!(normalize_version("1.2.3-beta.1+build"), Some("1.2.3-beta.1+build".to_string()));
    assert_eq!(normalize_version("vv2.0.0"), Some("2.0.0".to_string()));
    assert_eq!(normalize_version("v 1.2.3"), None);
    assert_eq!(normalize_version("1.2"), None);
    assert_eq!(normalize_version("latest"), None);
    assert_eq!(normalize_version(""), None);
}

#[test]
fn newest_version_sorts_first() {
    let old = release("v1.2.0", false, false);
    let new = release("v1.10.0", false, false);
    assert_eq!(release_version_desc(&new, &old), Ordering::Less);
    assert_eq!(release_version_desc(&old, &new), Ordering::Greater);
    assert_eq!(release_version_desc(&old, &release("1.2.0", false, false)), Ordering::Equal);
}

#[test]
fn prerelease_is_older_than_its_release() {
    let pre = release("v1.0.0-rc.1", false, true);
    let rel = release("v1.0.0", false, false);
    assert_eq!(release_version_desc(&rel, &pre), Ordering::Less);
    assert_eq!(release_version_desc(&pre, &rel), Ordering::Greater);
}

#[test]
fn tag_without_version_sorts_last() {
    let bad = release("nightly", false, false);
    let good = release("v0.0.1", false, false);
    assert_eq!(release_version_desc(&good, &bad), Ordering::Less);
    assert_eq!(release_version_desc(&bad, &good), Ordering::Greater);
    assert_eq!(release_version_desc(&bad, &release("other", false, false)), Ordering::Equal);
}

#[test]
fn sorting_by_version_desc() {
    let mut list = vec![
        release("v1.0.0", false, false),
        release("junk", false, false),
        release("v2.1.0", false, false),
        release("v2.0.0-beta.2", false, true),
        release("v2.0.0", false, false),
    ];
    list.sort_by(release_version_desc);
    assert_eq!(tags(&list), vec!["v2.1.0", "v2.0.0", "v2.0.0-beta.2", "v1.0.0", "junk"]);
}

fn mixed() -> Vec<GithubRelease> {
    vec![
        release("v1.0.0", false, false),
        release("v1.1.0", true, false),
        release("v1.2.0-beta.1", false, true),
        release("not-a-version", false, false),
        release("v1.3.0-rc.1", true, true),
        release(" v1.4.0 ", false, false),
        release("dev-build", false, true),
    ]
}

#[test]
fn stable_releases_drop_drafts_prereleases_and_bad_tags() {
    assert_eq!(tags(&stable_releases(mixed())), vec!["v1.0.0", " v1.4.0 "]);
    assert!(stable_releases(Vec::new()).is_empty());
}

#[test]
fn releases_for_each_channel() {
    assert_eq!(tags(&releases_for_channel(mixed(), &UpdateChannel::Main)), vec!["v1.0.0", " v1.4.0 "]);
    assert_eq!(tags(&releases_for_channel(mixed(), &UpdateChannel::Dev)), vec!["v1.2.0-beta.1"]);
}

#[test]
fn channel_membership() {
    assert!(belongs_to_channel(&release("v1.0.0", false, false), &UpdateChannel::Main));
    assert!(!belongs_to_channel(&release("v1.0.0", false, false), &UpdateChannel::Dev));
    assert!(belongs_to_channel(&release("v1.0.0-a", false, true), &UpdateChannel::Dev));
    assert!(!belongs_to_channel(&release("v1.0.0", true, false), &UpdateChannel::Main));
}

#[test]
fn kept_releases_keep_their_fields() {
    let mut r = release("v3.0.0", false, false);
    r.name = Some("Three".to_string());
    r.body = Some("notes".to_string());
    let out = stable_releases(vec![r.clone()]);
    assert_eq!(out, vec![r]);
}

fn asset(name: &str) -> GithubAsset {
    GithubAsset { name: name.to_string(), browser_download_url: format!("https://example.invalid/{}", name) }
}

#[test]
fn newest_releases_first_keeps_every_release() {
    let sorted = newest_releases_first(mixed());
    assert_eq!(sorted.len(), 7);
    assert_eq!(tags(&sorted[..5]), vec![" v1.4.0 ", "v1.3.0-rc.1", "v1.2.0-beta.1", "v1.1.0", "v1.0.0"]);
    assert_eq!(tags(&sorted[5..]), vec!["not-a-version", "dev-build"]);
}

#[test]
fn version_list_shows_stable_releases_newest_first() {
    let mut named = release("v0.9.0", false, false);
    named.name = Some("Nine".to_string());
    named.published_at = Some("2024-01-01T00:00:00Z".to_string());
    let mut all = mixed();
    all.push(named);
    let list = list_release_versions(all);
    assert_eq!(
        list,
        vec![
            ReleaseVersion { tag: " v1.4.0 ".to_string(), name: " v1.4.0 ".to_string(), published_at: None },
            ReleaseVersion { tag: "v1.0.0".to_string(), name: "v1.0.0".to_string(), published_at: None },
            ReleaseVersion {
                tag: "v0.9.0".to_string(),
                name: "Nine".to_string(),
                published_at: Some("2024-01-01T00:00:00Z".to_string()),
            },
        ]
    );
}

#[test]
fn release_entries_fall_back_to_the_tag_for_a_name() {
    let mut r = release("v1.0.0", false, false);
    r.body = Some("notes".to_string());
    assert_eq!(
        update_info_of(r.clone()),
        UpdateInfo { tag: "v1.0.0".to_string(), name: "v1.0.0".to_string(), notes: Some("notes".to_string()), published_at: None }
    );
    r.name = Some("One".to_string());
    assert_eq!(
        release_version_of(r),
        ReleaseVersion { tag: "v1.0.0".to_string(), name: "One".to_string(), published_at: None }
    );
}

#[test]
fn main_channel_offers_only_greater_versions() {
    let found = check_channel_update("1.0.0", &UpdateChannel::Main, mixed()).unwrap().unwrap();
    assert_eq!(found.tag, " v1.4.0 ");
    assert_eq!(check_channel_update("v1.4.0", &UpdateChannel::Main, mixed()), Ok(None));
    assert_eq!(check_channel_update("9.0.0", &UpdateChannel::Main, mixed()), Ok(None));
    assert_eq!(check_channel_update("1.0.0", &UpdateChannel::Main, Vec::new()), Ok(None));
}

#[test]
fn dev_channel_offers_any_other_version() {
    let all = vec![release("v2.0.0-beta.2", false, true), release("v2.0.0-beta.1", false, true)];
    let found = check_channel_update("3.0.0", &UpdateChannel::Dev, all.clone()).unwrap().unwrap();
    assert_eq!(found.tag, "v2.0.0-beta.2");
    let found = check_channel_update("2.0.0-beta.2", &UpdateChannel::Dev, all.clone()).unwrap().unwrap();
    assert_eq!(found.tag, "v2.0.0-beta.1");
    let only = vec![release("v2.0.0-beta.2", false, true)];
    assert_eq!(check_channel_update("v2.0.0-beta.2", &UpdateChannel::Dev, only), Ok(None));
}

#[test]
fn build_metadata_tells_versions_apart_on_dev() {
    let only = vec![release("v2.0.0-beta.2+b7", false, true)];
    let found = check_channel_update("2.0.0-beta.2+b6", &UpdateChannel::Dev, only).unwrap().unwrap();
    assert_eq!(found.tag, "v2.0.0-beta.2+b7");
}

#[test]
fn invalid_current_version_is_an_error() {
    assert_eq!(check_channel_update("one", &UpdateChannel::Main, mixed()), Err(UpdateError::InvalidCurrentVersion));
    assert_eq!(check_channel_update("", &UpdateChannel::Dev, Vec::new()), Err(UpdateError::InvalidCurrentVersion));
}

#[test]
fn latest_release_of_a_channel() {
    assert_eq!(latest_in_channel(mixed(), &UpdateChannel::Main).unwrap().tag_name, " v1.4.0 ");
    assert_eq!(latest_in_channel(mixed(), &UpdateChannel::Dev).unwrap().tag_name, "v1.2.0-beta.1");
    assert_eq!(latest_in_channel(Vec::new(), &UpdateChannel::Dev), Err(UpdateError::NoReleaseInChannel));
}

#[test]
fn release_is_found_by_tag_among_stable_ones() {
    assert_eq!(find_release(mixed(), "1.0.0").unwrap().tag_name, "v1.0.0");
    assert_eq!(find_release(mixed(), "v1.4.0").unwrap().tag_name, " v1.4.0 ");
    assert_eq!(find_release(mixed(), "v1.2.0-beta.1"), Err(UpdateError::ReleaseNotFound));
    assert_eq!(find_release(mixed(), "v7.0.0"), Err(UpdateError::ReleaseNotFound));
}

#[test]
fn disk_image_for_the_architecture_is_preferred() {
    let assets = vec![
        asset("LockPilot.zip"),
        asset("LockPilot_x86_64.dmg"),
        asset("LockPilot_arm64.DMG"),
        asset("LockPilot_aarch64.dmg"),
    ];
    assert_eq!(pick_dmg_asset(&assets, "aarch64"), Some(asset("LockPilot_arm64.DMG")));
    assert_eq!(pick_dmg_asset(&assets, "x86_64"), Some(asset("LockPilot_x86_64.dmg")));
    assert_eq!(pick_dmg_asset(&assets, "riscv64"), Some(asset("LockPilot_x86_64.dmg")));
}

#[test]
fn first_disk_image_is_the_fallback() {
    let assets = vec![asset("notes.txt"), asset("LockPilot_universal.dmg"), asset("LockPilot_amd64.dmg")];
    assert_eq!(pick_dmg_asset(&assets, "aarch64"), Some(asset("LockPilot_universal.dmg")));
    assert_eq!(pick_dmg_asset(&assets, "x86_64"), Some(asset("LockPilot_amd64.dmg")));
    assert_eq!(pick_dmg_asset(&vec![asset("arm64.zip")], "aarch64"), None);
    assert_eq!(pick_dmg_asset(&Vec::new(), "aarch64"), None);
}

#[test]
fn installer_file_name_has_no_slash() {
    assert_eq!(installer_file_name("v1.2.3"), "LockPilot-v1.2.3.dmg");
    assert_eq!(installer_file_name("release/v1/2"), "LockPilot-release-v1-2.dmg");
    assert_eq!(installer_file_name(""), "LockPilot-.dmg");
}
