use github_workflow_update::cmd::OutputFormat;
use github_workflow_update::entity::Entity;
use github_workflow_update::error::Error;
use github_workflow_update::processor::outdated_message;
use github_workflow_update::resource::Resource;
use github_workflow_update::version::Version;

#[test]
fn parse_docker_reference() {
    let (resource, version) = Resource::parse("docker://lpenz/omnilint:0.4").unwrap();
    assert!(resource.is_docker());
    assert!(!resource.is_github());
    assert_eq!(resource.display_string(), "docker://lpenz/omnilint");
    assert_eq!(version.display_string(), "0.4");
}

#[test]
fn parse_action_reference() {
    let (resource, version) = Resource::parse("actions/checkout@v2").unwrap();
    assert!(resource.is_github());
    assert!(!resource.is_docker());
    assert_eq!(resource.display_string(), "actions/checkout");
    assert_eq!(version.display_string(), "v2");
}

#[test]
fn parse_workflow_reference() {
    let (resource, version) =
        Resource::parse("lpenz/ghworkflow-rust/.github/workflows/rust.yml@v0.14.2").unwrap();
    assert!(resource.is_github());
    assert_eq!(
        resource.display_string(),
        "lpenz/ghworkflow-rust/.github/workflows/rust.yml"
    );
    assert_eq!(version.display_string(), "v0.14.2");
}

#[test]
fn parse_rejects_malformed_references() {
    for input in [
        "",
        "plainword",
        "docker://noversion",
        "docker://two:colons:here",
        "docker://:0.4",
        "docker://image:",
        "user/repo",
        "user/repo@",
        "/repo@v1",
        "user/re/po@v1",
        "user/repo@v1@v2",
    ] {
        match Resource::parse(input) {
            Err(Error::UnknownResourceScheme { input: reported }) => {
                assert_eq!(reported, input);
            }
            _ => panic!("expected {input:?} to be rejected"),
        }
    }
}

#[test]
fn version_may_contain_slashes_in_action_form() {
    let (resource, version) = Resource::parse("user/repo@feature/branch").unwrap();
    assert_eq!(resource.display_string(), "user/repo");
    assert_eq!(version.display_string(), "feature/branch");
}

#[test]
fn url_of_each_resource_kind() {
    let (docker, _) = Resource::parse("docker://lpenz/omnilint:0.4").unwrap();
    assert_eq!(
        docker.url(),
        "https://registry.hub.docker.com/v1/repositories/lpenz/omnilint/tags"
    );
    let (action, _) = Resource::parse("actions/checkout@v2").unwrap();
    assert_eq!(
        action.url(),
        "https://api.github.com/repos/actions/checkout/git/matching-refs/tags"
    );
    let (workflow, _) =
        Resource::parse("lpenz/ghworkflow-rust/.github/workflows/rust.yml@v0.14.2").unwrap();
    assert_eq!(
        workflow.url(),
        "https://api.github.com/repos/lpenz/ghworkflow-rust/git/matching-refs/tags"
    );
}

#[test]
fn versioned_string_round_trips_the_reference() {
    let (docker, version) = Resource::parse("docker://lpenz/omnilint:0.4").unwrap();
    assert_eq!(docker.versioned_string(&version), "docker://lpenz/omnilint:0.4");
    let (action, version) = Resource::parse("actions/checkout@v2").unwrap();
    assert_eq!(action.versioned_string(&version), "actions/checkout@v2");
    let newer = Version::new("v4").unwrap();
    assert_eq!(action.versioned_string(&newer), "actions/checkout@v4");
}

#[test]
fn resource_equality_ignores_version() {
    let (a, _) = Resource::parse("docker://lpenz/omnilint:0.4").unwrap();
    let (b, _) = Resource::parse("docker://lpenz/omnilint:0.9.0").unwrap();
    assert!(a.equals(&b));
    let (c, _) = Resource::parse("docker://lpenz/other:0.4").unwrap();
    assert!(!a.equals(&c));
    let (d, _) = Resource::parse("lpenz/omnilint@0.4").unwrap();
    assert!(!a.equals(&d));
}

#[test]
fn entity_resolution_fills_latest_and_updated_line() {
    let line = "docker://lpenz/omnilint:0.4";
    let (resource, version) = Resource::parse(line).unwrap();
    let entity = Entity::new(line.to_string(), resource, version);
    let versions: Vec<Version> =
        ["0.4", "0.9.0"].iter().map(|t| Version::new(t).unwrap()).collect();
    let resolved = entity.resolve(&Ok(versions));
    assert_eq!(resolved.latest.as_ref().unwrap().display_string(), "0.9.0");
    assert_eq!(resolved.updated_line.as_deref(), Some("docker://lpenz/omnilint:0.9.0"));
}

#[test]
fn entity_resolution_degrades_on_failure_or_empty() {
    let line = "actions/checkout@v2";
    let (resource, version) = Resource::parse(line).unwrap();
    let entity = Entity::new(line.to_string(), resource, version);
    let failed = entity.resolve(&Err(Error::ChannelClosed));
    assert!(failed.latest.is_none());
    assert!(failed.updated_line.is_none());
    let empty = failed.resolve(&Ok(Vec::new()));
    assert!(empty.latest.is_none());
    assert!(empty.updated_line.is_none());
}

#[test]
fn outdated_message_formats() {
    let (resource, current) = Resource::parse("docker://lpenz/omnilint:0.4").unwrap();
    let latest = Version::new("0.9.0").unwrap();
    assert_eq!(
        outdated_message(OutputFormat::Standard, false, "wf.yml", &resource, &current, &latest)
            .unwrap(),
        "wf.yml: update docker://lpenz/omnilint from 0.4 to 0.9.0"
    );
    assert_eq!(
        outdated_message(OutputFormat::Standard, true, "wf.yml", &resource, &current, &latest)
            .unwrap(),
        "wf.yml: update docker://lpenz/omnilint from 0.4 to 0.9.0 (dryrun)"
    );
    assert_eq!(
        outdated_message(
            OutputFormat::GithubWarning,
            false,
            "wf.yml",
            &resource,
            &current,
            &latest,
        )
        .unwrap(),
        "::warning file=wf.yml::update docker://lpenz/omnilint from 0.4 to 0.9.0"
    );
    // An up-to-date site yields no message.
    assert!(outdated_message(
        OutputFormat::Standard,
        false,
        "wf.yml",
        &resource,
        &current,
        &Version::new("0.4").unwrap(),
    )
    .is_none());
}
