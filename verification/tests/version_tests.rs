use github_workflow_update::version::contains_version;
use github_workflow_update::version::latest;
use github_workflow_update::version::Version;

fn versions_of(tags: &[&str]) -> Vec<Version> {
    tags.iter().map(|t| Version::new(t).unwrap()).collect()
}

#[test]
fn resolved_latest_of_tag_list() {
    let versions = versions_of(&["latest", "0.2", "0.3", "0.4", "0.6", "0.7", "0.8.0", "0.9.0"]);
    let current = Version::new("0.3").unwrap();
    assert!(contains_version(&versions, &current));
    let resolved = latest(&versions).unwrap();
    assert_eq!(resolved.display_string(), "0.9.0");
}

#[test]
fn latest_of_empty_list_is_none() {
    let versions: Vec<Version> = Vec::new();
    assert!(latest(&versions).is_none());
}

#[test]
fn latest_keeps_first_of_equal_versions() {
    let versions = versions_of(&["1.0", "1.0"]);
    assert_eq!(latest(&versions).unwrap().display_string(), "1.0");
}

#[test]
fn parse_fills_structured_fields() {
    let v = Version::new("v1.2").unwrap();
    assert_eq!(v.string, "v1.2");
    let sv = v.version.as_ref().unwrap();
    assert_eq!((sv.major, sv.minor, sv.patch), (1, 2, 0));
    assert_eq!(sv.pre, "");
    assert_eq!(sv.build, "");

    let v = Version::new("1.0.0-alpha.1+build.5").unwrap();
    let sv = v.version.as_ref().unwrap();
    assert_eq!((sv.major, sv.minor, sv.patch), (1, 0, 0));
    assert_eq!(sv.pre, "alpha.1");
    assert_eq!(sv.build, "build.5");

    let v = Version::new("latest").unwrap();
    assert!(v.version.is_none());
    assert_eq!(v.string, "latest");
}

#[test]
fn unparseable_tags_order_below_and_by_text() {
    let latest_tag = Version::new("latest").unwrap();
    let zero_two = Version::new("0.2").unwrap();
    assert!(latest_tag.compare(&zero_two) < 0);
    assert!(zero_two.compare(&latest_tag) > 0);
    let abc = Version::new("abc").unwrap();
    let abd = Version::new("abd").unwrap();
    assert!(abc.version.is_none());
    assert!(abd.version.is_none());
    assert!(abc.compare(&abd) < 0);
}

#[test]
fn numeric_components_compare_numerically() {
    let a = Version::new("0.99").unwrap();
    let b = Version::new("0.100").unwrap();
    assert!(a.compare(&b) < 0);
    let a = Version::new("2.0.0").unwrap();
    let b = Version::new("10.0.0").unwrap();
    assert!(a.compare(&b) < 0);
}

#[test]
fn prerelease_precedence() {
    let release = Version::new("1.0.0").unwrap();
    let alpha = Version::new("1.0.0-alpha").unwrap();
    // A pre-release comes before the real release.
    assert!(alpha.compare(&release) < 0);
    // Numeric identifiers compare numerically and below alphanumeric ones.
    let pre2 = Version::new("1.0.0-2").unwrap();
    let pre10 = Version::new("1.0.0-10").unwrap();
    assert!(pre2.compare(&pre10) < 0);
    assert!(pre10.compare(&alpha) < 0);
    // More identifiers win when the shared ones tie.
    let alpha1 = Version::new("1.0.0-alpha.1").unwrap();
    assert!(alpha.compare(&alpha1) < 0);
    let alpha2 = Version::new("1.0.0-alpha.2").unwrap();
    assert!(alpha1.compare(&alpha2) < 0);
}

#[test]
fn equal_versions_compare_equal() {
    let a = Version::new("1.2.3").unwrap();
    let b = Version::new("1.2.3").unwrap();
    assert_eq!(a.compare(&b), 0);
    assert!(a.equals(&b));
    let c = Version::new("v1.2.3").unwrap();
    // Same structured reading, different text: the text breaks the tie.
    assert!(!a.equals(&c));
    assert!(a.compare(&c) != 0);
}

#[test]
fn contains_version_is_structural() {
    let versions = versions_of(&["0.2", "0.3"]);
    assert!(contains_version(&versions, &Version::new("0.2").unwrap()));
    assert!(!contains_version(&versions, &Version::new("0.4").unwrap()));
}

#[test]
fn build_metadata_breaks_ties() {
    let plain = Version::new("1.0.0").unwrap();
    let b0 = Version::new("1.0.0+0").unwrap();
    let b00 = Version::new("1.0.0+00").unwrap();
    let b1 = Version::new("1.0.0+1").unwrap();
    let b01 = Version::new("1.0.0+01").unwrap();
    let b2 = Version::new("1.0.0+2").unwrap();
    // Empty build metadata comes first, then 0 < 00 < 1 < 01 < 2.
    assert!(plain.compare(&b0) < 0);
    assert!(b0.compare(&b00) < 0);
    assert!(b00.compare(&b1) < 0);
    assert!(b1.compare(&b01) < 0);
    assert!(b01.compare(&b2) < 0);
}
