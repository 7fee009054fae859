use github_workflow_update::entity::Entity;
use github_workflow_update::updater::docker;
use github_workflow_update::updater::github;
use github_workflow_update::updater::updater_for;
use github_workflow_update::updater::Upd;
use github_workflow_update::error::Error;
use github_workflow_update::resource::Resource;
use github_workflow_update::version::Version;

#[test]
fn docker_test_docker_parse_versions() {
    let json_str = r#"{"results":[{"name": "latest"}, {"name": "0.2"}, {"name": "0.3"}, {"name": "0.4"}, {"name": "0.6"}, {"name": "0.7"}, {"name": "0.8.0"}, {"name": "0.9.0"}]}"#;
    let json_value: serde_json::Value = serde_json::from_str(json_str).unwrap();
    let versions = docker::parse_versions(&json_value)
        .unwrap()
        .into_iter()
        .map(|v| v.display_string())
        .collect::<Vec<_>>();
    assert_eq!(
        versions,
        ["latest", "0.2", "0.3", "0.4", "0.6", "0.7", "0.8.0", "0.9.0"]
    );
}

#[test]
fn github_test_docker_parse_versions() {
    let json_str = r#"
[
  {
    "ref": "refs/tags/v0.1",
    "node_id": "REF_kwDOHcsoLq5yZWZzL3RhZ3MvdjAuMQ",
    "url": "https://api.github.com/repos/lpenz/ghworkflow-rust/git/refs/tags/v0.1",
    "object": {
      "sha": "ca550057e88e5885030e756b90bd040ad7840cee",
      "type": "commit",
      "url": "https://api.github.com/repos/lpenz/ghworkflow-rust/git/commits/ca550057e88e5885030e756b90bd040ad7840cee"
    }
  },
  {
    "ref": "refs/tags/0.2",
    "node_id": "REF_kwDOHcsoLq5yZWZzL3RhZ3MvdjAuMg",
    "url": "https://api.github.com/repos/lpenz/ghworkflow-rust/git/refs/tags/v0.2",
    "object": {
      "sha": "2b80e7d13e4b1738a17887b4d66143433267cea6",
      "type": "commit",
      "url": "https://api.github.com/repos/lpenz/ghworkflow-rust/git/commits/2b80e7d13e4b1738a17887b4d66143433267cea6"
    }
  },
  {
    "ref": "refs/tags/latest",
    "node_id": "REF_kwDOHcsoLq5yZWZzL3RhZ3MvdjAuMw",
    "url": "https://api.github.com/repos/lpenz/ghworkflow-rust/git/refs/tags/v0.3",
    "object": {
      "sha": "c7d367f5f10a2605aa43a540f9f88177d5fa12ac",
      "type": "commit",
      "url": "https://api.github.com/repos/lpenz/ghworkflow-rust/git/commits/c7d367f5f10a2605aa43a540f9f88177d5fa12ac"
    }
  },
  {
    "ref": "refs/tags/v0.4",
    "node_id": "REF_kwDOHcsoLq5yZWZzL3RhZ3MvdjAuNA",
    "url": "https://api.github.com/repos/lpenz/ghworkflow-rust/git/refs/tags/v0.4",
    "object": {
      "sha": "04bb04c23563d3302fe6ca0c2b832e9e67c47d58",
      "type": "commit",
      "url": "https://api.github.com/repos/lpenz/ghworkflow-rust/git/commits/04bb04c23563d3302fe6ca0c2b832e9e67c47d58"
    }
  }
]
"#;
    let json_value: serde_json::Value = serde_json::from_str(json_str).unwrap();
    let mut versions = github::parse_versions(&json_value)
        .unwrap()
        .into_iter()
        .collect::<Vec<_>>();
    versions.sort_by(|a, b| a.compare(b).cmp(&0));
    let versions = versions
        .into_iter()
        .map(|v| v.display_string())
        .collect::<Vec<_>>();
    assert_eq!(versions, ["latest", "v0.1", "0.2", "v0.4"]);
}

#[test]
fn github_refs_parse_in_order() {
    let refs = ["refs/tags/v0.1", "refs/tags/0.2", "refs/tags/latest", "refs/tags/v0.4"];
    let mut parsed: Vec<String> = Vec::new();
    for r in refs {
        parsed.push(github::version_from_ref(r).unwrap().display_string());
    }
    assert_eq!(parsed, ["v0.1", "0.2", "latest", "v0.4"]);
}

#[test]
fn github_ref_without_tag_prefix_fails() {
    let r = github::version_from_ref("refs/heads/main");
    match r {
        Err(Error::JsonParsing { detail }) => {
            assert_eq!(detail, "could not match github ref refs/heads/main to tag regex");
        }
        _ => panic!("expected a JSON-parsing error"),
    }
    assert!(github::version_from_ref("refs/tags/").is_err());
}

#[test]
fn non_success_status_yields_http_error() {
    let r = docker::get_versions("https://registry.example/tags", 404, "ignored");
    match r {
        Err(Error::HttpError { url, status }) => {
            assert_eq!(url, "https://registry.example/tags");
            assert_eq!(status, 404);
        }
        _ => panic!("expected an HTTP error"),
    }
    let r = github::get_versions("https://api.example/refs", 500, "ignored");
    match r {
        Err(Error::HttpError { url, status }) => {
            assert_eq!(url, "https://api.example/refs");
            assert_eq!(status, 500);
        }
        _ => panic!("expected an HTTP error"),
    }
}

#[test]
fn success_status_parses_body() {
    let body = r#"{"results":[{"name": "1.0"}]}"#;
    let versions = docker::get_versions("https://registry.example/tags", 200, body).unwrap();
    assert_eq!(versions.len(), 1);
    assert_eq!(versions[0].display_string(), "1.0");
    let bad = docker::get_versions("https://registry.example/tags", 200, "not json at all");
    assert!(matches!(bad, Err(Error::JsonParsing { .. })));
}

#[test]
fn docker_malformed_entry_fails_whole_fetch() {
    let json_value: serde_json::Value =
        serde_json::from_str(r#"{"results":[{"name": "1.0"}, {"layer": ""}]}"#).unwrap();
    match docker::parse_versions(&json_value) {
        Err(Error::JsonParsing { detail }) => {
            assert_eq!(detail, "\"name\" field not found in \"result\" object");
        }
        _ => panic!("expected a JSON-parsing error"),
    }
    let json_value: serde_json::Value = serde_json::from_str(r#"[1, 2]"#).unwrap();
    match docker::parse_versions(&json_value) {
        Err(Error::JsonParsing { detail }) => {
            assert_eq!(detail, "invalid type for top object");
        }
        _ => panic!("expected a JSON-parsing error"),
    }
}

#[test]
fn docker_empty_results_is_valid_and_empty() {
    let json_value: serde_json::Value = serde_json::from_str(r#"{"results":[]}"#).unwrap();
    assert_eq!(docker::parse_versions(&json_value).unwrap().len(), 0);
    let json_value: serde_json::Value = serde_json::from_str("[]").unwrap();
    assert_eq!(github::parse_versions(&json_value).unwrap().len(), 0);
}

#[test]
fn docker_url_for_reference_string() {
    assert_eq!(
        docker::url("docker://lpenz/omnilint").unwrap(),
        "https://registry.hub.docker.com/v1/repositories/lpenz/omnilint/tags"
    );
    assert!(docker::url("lpenz/omnilint").is_none());
}

#[test]
fn updater_for_matches_resource_kind() {
    let docker_res = Resource::new_docker("lpenz/omnilint".to_string());
    assert!(matches!(updater_for(&docker_res), Ok(Upd::Docker(_))));
    let action_res = Resource::new_ghaction("actions".to_string(), "checkout".to_string());
    assert!(matches!(updater_for(&action_res), Ok(Upd::Github(_))));
    let wf_res = Resource::new_ghworkflow(
        "lpenz".to_string(),
        "ghworkflow-rust".to_string(),
        "rust.yml".to_string(),
    );
    assert!(matches!(updater_for(&wf_res), Ok(Upd::Github(_))));
}

#[test]
fn updated_line_uses_strategy_separator() {
    let (resource, version) = Resource::parse("docker://lpenz/omnilint:0.4").unwrap();
    let mut entity = Entity::new("docker://lpenz/omnilint:0.4".to_string(), resource, version);
    entity.latest = Some(Version::new("0.9.0").unwrap());
    let upd = updater_for(&entity.resource).unwrap();
    assert_eq!(upd.updated_line(&entity).unwrap(), "docker://lpenz/omnilint:0.9.0");

    let (resource, version) = Resource::parse("actions/checkout@v2").unwrap();
    let mut entity = Entity::new("actions/checkout@v2".to_string(), resource, version);
    assert!(updater_for(&entity.resource).unwrap().updated_line(&entity).is_none());
    entity.latest = Some(Version::new("v4".to_string().as_str()).unwrap());
    let upd = updater_for(&entity.resource).unwrap();
    assert_eq!(upd.updated_line(&entity).unwrap(), "actions/checkout@v4");
}
