use image_upgrader::error::ResolveError;
use image_upgrader::tag::{
    latest_tag, normalize, select_after_sentinel, select_latest, select_latest_index,
    strip_suffix, TagCandidate,
};
use image_upgrader::version::is_semver;

fn strings(items: &[&str]) -> Vec<String> {
    items.iter().map(|s| s.to_string()).collect()
}

fn candidates(items: &[&str], arch: Option<&str>) -> Vec<TagCandidate> {
    items.iter().map(|s| normalize(s, arch)).collect()
}

#[test]
fn strips_a_single_leading_marker() {
    assert_eq!(strip_suffix("v1.2.3", None), "1.2.3");
    assert_eq!(strip_suffix("vv1", None), "v1");
    assert_eq!(strip_suffix("v", None), "");
    assert_eq!(strip_suffix("1.2.3", None), "1.2.3");
    assert_eq!(strip_suffix("", None), "");
    assert_eq!(strip_suffix("V1", None), "V1");
}

#[test]
fn strips_everything_from_the_first_dash() {
    assert_eq!(strip_suffix("1.2.3-rc1", None), "1.2.3");
    assert_eq!(strip_suffix("1.2.3-rc1-amd64", None), "1.2.3");
    assert_eq!(strip_suffix("v2.0-alpine", None), "2.0");
    assert_eq!(strip_suffix("-x", None), "");
    assert_eq!(strip_suffix("v-", None), "");
    assert_eq!(strip_suffix("1.2.3-", None), "1.2.3");
}

#[test]
fn strips_the_architecture_suffix_only() {
    assert_eq!(strip_suffix("1.2.3-amd64", Some("amd64")), "1.2.3");
    assert_eq!(strip_suffix("v1.2.3-amd64", Some("amd64")), "1.2.3");
    assert_eq!(strip_suffix("1.2.3-arm64", Some("amd64")), "1.2.3-arm64");
    assert_eq!(strip_suffix("1.2.3-rc1-amd64", Some("amd64")), "1.2.3-rc1");
    assert_eq!(strip_suffix("1.2.3", Some("amd64")), "1.2.3");
    assert_eq!(strip_suffix("amd64", Some("amd64")), "amd64");
    assert_eq!(strip_suffix("-amd64", Some("amd64")), "");
    assert_eq!(strip_suffix("v-amd64", Some("amd64")), "");
    assert_eq!(strip_suffix("1.2-amd64-amd64", Some("amd64")), "1.2-amd64");
    assert_eq!(strip_suffix("1.2-", Some("")), "1.2");
    assert_eq!(strip_suffix("1.2", Some("")), "1.2");
}

#[test]
fn strips_by_characters_not_bytes() {
    assert_eq!(strip_suffix("v\u{00e9}\u{00e9}-x", None), "\u{00e9}\u{00e9}");
    assert_eq!(strip_suffix("\u{00e9}1-\u{00fc}", Some("\u{00fc}")), "\u{00e9}1");
}

#[test]
fn a_build_suffix_makes_a_tag_valid_only_once_stripped() {
    assert!(!is_semver("1.2.3-rc1"));
    assert!(is_semver(strip_suffix("1.2.3-rc1", None)));
    let c = normalize("1.2.3-rc1", None);
    assert_eq!(c.raw, "1.2.3-rc1");
    assert_eq!(c.normalized, "1.2.3");
    assert!(c.is_valid_version);
}

#[test]
fn normalize_classifies_tags() {
    let c = normalize("v1.4.0-amd64", Some("amd64"));
    assert_eq!(c.raw, "v1.4.0-amd64");
    assert_eq!(c.normalized, "1.4.0");
    assert!(c.is_valid_version);
    let c = normalize("v1.4.0-arm64", Some("amd64"));
    assert_eq!(c.normalized, "1.4.0-arm64");
    assert!(!c.is_valid_version);
    let c = normalize("latest", None);
    assert_eq!(c.normalized, "latest");
    assert!(!c.is_valid_version);
    let c = normalize("", None);
    assert_eq!(c.normalized, "");
    assert!(!c.is_valid_version);
    let c = normalize("v", None);
    assert!(!c.is_valid_version);
}

#[test]
fn duplicate_copies_every_field() {
    let c = normalize("v3.1-rc2", None);
    let d = c.duplicate();
    assert_eq!(d.raw, "v3.1-rc2");
    assert_eq!(d.normalized, "3.1");
    assert!(d.is_valid_version);
}

#[test]
fn select_latest_picks_the_greatest_version() {
    let c = candidates(&["1.2.3", "2.0.0", "not-a-version"], None);
    let latest = select_latest(&c).unwrap();
    assert_eq!(latest.raw, "2.0.0");
    assert_eq!(latest.normalized, "2.0.0");
    assert!(latest.is_valid_version);
    assert_eq!(select_latest_index(&c), Some(1));
}

#[test]
fn select_latest_compares_numbers() {
    let c = candidates(&["1.9.0", "1.10.0", "1.2.0"], None);
    assert_eq!(select_latest(&c).unwrap().raw, "1.10.0");
}

#[test]
fn select_latest_keeps_the_first_of_equal_versions() {
    let c = candidates(&["1.0", "v2.0.0", "2.0.0", "02.0.0", "1.5"], None);
    assert_eq!(select_latest_index(&c), Some(1));
    assert_eq!(select_latest(&c).unwrap().raw, "v2.0.0");
    let c = candidates(&["2.0.0-rc1", "2.0.0"], None);
    assert_eq!(select_latest(&c).unwrap().raw, "2.0.0-rc1");
}

#[test]
fn select_latest_fails_without_a_version() {
    let c = candidates(&["latest", "main", "not-a-version"], None);
    assert_eq!(select_latest(&c).unwrap_err(), ResolveError::NoValidTagsFound);
    assert_eq!(select_latest_index(&c), None);
    let none: Vec<TagCandidate> = Vec::new();
    assert_eq!(select_latest(&none).unwrap_err(), ResolveError::NoValidTagsFound);
}

#[test]
fn latest_tag_returns_the_tag_as_published() {
    let tags = strings(&["1.2.3", "2.0.0", "not-a-version"]);
    assert_eq!(latest_tag(&tags, None), Ok("2.0.0".to_string()));
    let tags = strings(&["v1.0.0-amd64", "v1.1.0-arm64", "v1.1.0-amd64", "latest"]);
    assert_eq!(latest_tag(&tags, Some("amd64")), Ok("v1.1.0-amd64".to_string()));
    assert_eq!(latest_tag(&tags, Some("arm64")), Ok("v1.1.0-arm64".to_string()));
    assert_eq!(latest_tag(&tags, None), Ok("v1.1.0-arm64".to_string()));
}

#[test]
fn latest_tag_skips_tags_of_other_architectures() {
    let tags = strings(&["9.0.0-arm64", "1.0.0-amd64"]);
    assert_eq!(latest_tag(&tags, Some("amd64")), Ok("1.0.0-amd64".to_string()));
}

#[test]
fn latest_tag_fails_without_a_version() {
    assert_eq!(latest_tag(&strings(&["latest"]), None), Err(ResolveError::NoValidTagsFound));
    assert_eq!(latest_tag(&strings(&[]), None), Err(ResolveError::NoValidTagsFound));
}

#[test]
fn the_tag_after_main_is_the_latest() {
    assert_eq!(select_after_sentinel(&strings(&["main", "abc123"])), Ok("abc123".to_string()));
    assert_eq!(
        select_after_sentinel(&strings(&["old", "main", "abc123", "def456"])),
        Ok("abc123".to_string())
    );
}

#[test]
fn the_first_main_counts() {
    assert_eq!(
        select_after_sentinel(&strings(&["x", "main", "main", "y"])),
        Ok("main".to_string())
    );
    assert_eq!(
        select_after_sentinel(&strings(&["main", "a", "main"])),
        Ok("a".to_string())
    );
}

#[test]
fn main_at_the_end_has_no_successor() {
    assert_eq!(
        select_after_sentinel(&strings(&["abc123", "main"])),
        Err(ResolveError::NoTagAfterSentinel)
    );
    assert_eq!(select_after_sentinel(&strings(&["main"])), Err(ResolveError::NoTagAfterSentinel));
}

#[test]
fn a_list_without_main_has_no_sentinel() {
    assert_eq!(select_after_sentinel(&strings(&["abc123"])), Err(ResolveError::SentinelNotFound));
    assert_eq!(select_after_sentinel(&strings(&[])), Err(ResolveError::SentinelNotFound));
    assert_eq!(
        select_after_sentinel(&strings(&["Main", "mainline", "mai"])),
        Err(ResolveError::SentinelNotFound)
    );
}
