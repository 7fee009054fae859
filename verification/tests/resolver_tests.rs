use github_workflow_update::error::Error;
use github_workflow_update::resolver::Action;
use github_workflow_update::resolver::Resolver;
use github_workflow_update::resource::Resource;
use github_workflow_update::version::Version;

fn versions_of(tags: &[&str]) -> Vec<Version> {
    tags.iter().map(|t| Version::new(t).unwrap()).collect()
}

fn displays(versions: &[Version]) -> Vec<String> {
    versions.iter().map(|v| v.display_string()).collect()
}

#[test]
fn concurrent_requests_share_one_fetch() {
    let mut resolver = Resolver::new();
    let (resource, _) = Resource::parse("lpenz/ghworkflow-rust@v0.1").unwrap();
    // First request starts the one fetch; the rest only join it.
    let first = resolver.handle_request(&resource, 1);
    match &first {
        Action::StartFetch { url, .. } => {
            assert_eq!(
                url,
                "https://api.github.com/repos/lpenz/ghworkflow-rust/git/matching-refs/tags"
            );
        }
        _ => panic!("expected the first request to start a fetch"),
    }
    assert!(matches!(resolver.handle_request(&resource, 2), Action::Wait));
    assert!(matches!(resolver.handle_request(&resource, 3), Action::Wait));
    // The one completion answers all three waiters, in order, with an
    // identical version list.
    let fetched = versions_of(&["v0.1", "0.2"]);
    let replies = resolver.handle_completed(&resource, &Ok(fetched));
    assert_eq!(replies.len(), 3);
    let waiters: Vec<u64> = replies.iter().map(|r| r.0).collect();
    assert_eq!(waiters, [1, 2, 3]);
    for (_, outcome) in &replies {
        let versions = outcome.as_ref().unwrap();
        assert_eq!(displays(versions), ["v0.1", "0.2"]);
    }
}

#[test]
fn cached_resource_triggers_no_fetch() {
    let mut resolver = Resolver::new();
    let (resource, _) = Resource::parse("docker://lpenz/omnilint:0.4").unwrap();
    assert!(matches!(
        resolver.handle_request(&resource, 1),
        Action::StartFetch { .. }
    ));
    resolver.handle_completed(&resource, &Ok(versions_of(&["0.4", "0.9.0"])));
    // The resource is cached now: a later request is answered at once.
    match resolver.handle_request(&resource, 2) {
        Action::Reply { waiter, versions } => {
            assert_eq!(waiter, 2);
            assert_eq!(displays(&versions), ["0.4", "0.9.0"]);
        }
        _ => panic!("expected an immediate reply from the cache"),
    }
}

#[test]
fn distinct_resources_fetch_independently() {
    let mut resolver = Resolver::new();
    let (a, _) = Resource::parse("docker://lpenz/omnilint:0.4").unwrap();
    let (b, _) = Resource::parse("actions/checkout@v2").unwrap();
    assert!(matches!(resolver.handle_request(&a, 1), Action::StartFetch { .. }));
    assert!(matches!(resolver.handle_request(&b, 2), Action::StartFetch { .. }));
    let replies = resolver.handle_completed(&b, &Ok(versions_of(&["v2", "v4"])));
    assert_eq!(replies.len(), 1);
    assert_eq!(replies[0].0, 2);
    // The fetch for `a` is still pending and untouched.
    assert!(matches!(resolver.handle_request(&a, 3), Action::Wait));
}

#[test]
fn failure_reaches_all_waiters_and_is_not_cached() {
    let mut resolver = Resolver::new();
    let (resource, _) = Resource::parse("docker://lpenz/omnilint:0.4").unwrap();
    assert!(matches!(
        resolver.handle_request(&resource, 1),
        Action::StartFetch { .. }
    ));
    assert!(matches!(resolver.handle_request(&resource, 2), Action::Wait));
    let failure = Err(Error::HttpError {
        url: "https://registry.hub.docker.com/v1/repositories/lpenz/omnilint/tags".to_string(),
        status: 429,
    });
    let replies = resolver.handle_completed(&resource, &failure);
    assert_eq!(replies.len(), 2);
    for (_, outcome) in &replies {
        match outcome {
            Err(Error::HttpError { url, status }) => {
                assert_eq!(
                    url,
                    "https://registry.hub.docker.com/v1/repositories/lpenz/omnilint/tags"
                );
                assert_eq!(*status, 429);
            }
            _ => panic!("expected the HTTP failure to reach every waiter"),
        }
    }
    // The failure left no entry cached: the next request fetches again.
    assert!(matches!(
        resolver.handle_request(&resource, 3),
        Action::StartFetch { .. }
    ));
}

#[test]
fn unknown_scheme_never_reaches_the_resolver() {
    // An unrecognised identifier fails at the parse; no resource value
    // exists for it, so no request, pending entry or fetch can follow.
    match Resource::parse("not a reference") {
        Err(Error::UnknownResourceScheme { input }) => {
            assert_eq!(input, "not a reference");
        }
        _ => panic!("expected an unknown-resource-scheme error"),
    }
}

#[test]
fn empty_version_list_is_a_valid_success() {
    let mut resolver = Resolver::new();
    let (resource, _) = Resource::parse("actions/new-action@v1").unwrap();
    resolver.handle_request(&resource, 1);
    let replies = resolver.handle_completed(&resource, &Ok(Vec::new()));
    assert_eq!(replies.len(), 1);
    assert_eq!(replies[0].1.as_ref().unwrap().len(), 0);
    // Success with zero versions is cached like any other success.
    match resolver.handle_request(&resource, 2) {
        Action::Reply { versions, .. } => assert_eq!(versions.len(), 0),
        _ => panic!("expected a reply from the cache"),
    }
}

#[test]
fn completion_for_cached_resource_changes_nothing() {
    let mut resolver = Resolver::new();
    let (resource, _) = Resource::parse("docker://lpenz/omnilint:0.4").unwrap();
    resolver.handle_request(&resource, 1);
    resolver.handle_completed(&resource, &Ok(versions_of(&["1.0"])));
    // A defensive completion for an already-cached resource answers
    // nobody and leaves the cached entry as it was.
    let replies = resolver.handle_completed(&resource, &Ok(versions_of(&["2.0"])));
    assert_eq!(replies.len(), 0);
    match resolver.handle_request(&resource, 2) {
        Action::Reply { versions, .. } => assert_eq!(displays(&versions), ["1.0"]),
        _ => panic!("expected a reply from the cache"),
    }
}
