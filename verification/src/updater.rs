//! The per-resource-kind updater strategies and their dispatch.
//!
//! Each resource kind has one strategy that knows how to turn that
//! kind's upstream response into a version list: [`docker`] for the
//! registry tag-listing endpoint and [`github`] for the source host's
//! matching-tag-refs endpoint.  [`updater_for`] classifies a resource
//! into its strategy; the classification is total and unambiguous over
//! the resource kinds.

use vstd::prelude::*;

use crate::entity::Entity;
use crate::entity::EntityView;
use crate::error::Error;
use crate::resource::Resource;
use crate::resource::ResourceView;
use crate::resource::spec_display;
use crate::updater::json::JsonView;
use crate::updater::json::json_of;
use crate::version::Version;
use crate::version::VersionView;

pub mod docker;
pub mod github;
pub mod json;

verus! {

/// True exactly for the HTTP status codes that count as success.
pub open spec fn spec_is_success(status: u16) -> bool {
    200 <= status < 300
}

/// A strategy, as a tagged variant matched exhaustively.
#[derive(Clone, Copy, Debug)]
pub enum Upd {
    Docker(docker::Docker),
    Github(github::Github),
}

/// The strategy that serves a resource kind: the registry strategy for
/// container images, the source-host strategy for actions and workflows.
pub open spec fn spec_updater_for(r: ResourceView) -> Upd {
    if r is Docker {
        Upd::Docker(docker::Docker {  })
    } else {
        Upd::Github(github::Github {  })
    }
}

/// Resolve the strategy for a resource.  Classification is total over
/// the resource kinds, so this always succeeds.
pub fn updater_for(resource: &Resource) -> (r: Result<Upd, Error>)
    ensures
        r matches Ok(u) && u == spec_updater_for(resource@),
{
    if resource.is_docker() {
        Ok(Upd::Docker(docker::Docker {  }))
    } else if resource.is_github() {
        Ok(Upd::Github(github::Github {  }))
    } else {
        Err(Error::UnknownResourceScheme { input: resource.display_string() })
    }
}

/// The separator a strategy writes between a resource's display form and
/// its version: `:` for an image tag, `@` for a source-host ref.
pub open spec fn spec_separator(u: Upd) -> Seq<char> {
    if u is Docker {
        ":"@
    } else {
        "@"@
    }
}

/// The rewritten usage line for an entity whose latest version is known:
/// the resource's display form, the strategy's separator, the latest
/// version's text.
pub open spec fn spec_updated_line(u: Upd, e: EntityView) -> Option<Seq<char>> {
    match e.latest {
        Some(l) => Some(spec_display(e.resource) + spec_separator(u) + l.string),
        None => None,
    }
}

/// The reading a strategy gives to a JSON tree: the registry reading
/// for the registry strategy, the matching-refs reading for the
/// source-host strategy.
pub open spec fn spec_strategy_parse(u: Upd, j: JsonView) -> Result<Seq<VersionView>, Seq<char>> {
    match u {
        Upd::Docker(_) => docker::spec_docker_parse(j),
        Upd::Github(_) => github::spec_github_parse(j),
    }
}

impl Upd {
    /// The compute half of a fetch through this strategy: judge the HTTP
    /// status of the response, then parse its body as this strategy's
    /// endpoint format.  A status outside the success range yields
    /// exactly the typed HTTP error; on a success status the result is
    /// exactly this strategy's reading of the body's JSON tree.
    pub fn get_versions(&self, url: &str, status: u16, body: &str) -> (r: Result<
        Vec<Version>,
        Error,
    >)
        ensures
            !spec_is_success(status) ==> (r matches Err(e) && e@
                == (crate::error::ErrorView::HttpError { url: url@, status })),
            spec_is_success(status) ==> match json_of(body@) {
                Some(j) => ({
                    match r {
                        Ok(vs) => spec_strategy_parse(*self, j) matches Ok(ws) && vs.deep_view()
                            == ws,
                        Err(e) => spec_strategy_parse(*self, j) matches Err(d) && e@
                            == (crate::error::ErrorView::JsonParsing { detail: d }),
                    }
                }),
                None => r matches Err(e) && e@ is JsonParsing,
            },
    {
        match self {
            Upd::Docker(_) => docker::get_versions(url, status, body),
            Upd::Github(_) => github::get_versions(url, status, body),
        }
    }

    /// The rewritten usage line for an entity, once its latest version is
    /// known; nothing before that.
    pub fn updated_line(&self, entity: &Entity) -> (r: Option<String>)
        ensures
            match r {
                Some(s) => spec_updated_line(*self, entity@) == Some(s@),
                None => spec_updated_line(*self, entity@) is None,
            },
    {
        match &entity.latest {
            Some(l) => {
                let mut s = entity.resource.display_string();
                match self {
                    Upd::Docker(_) => s.append(":"),
                    Upd::Github(_) => s.append("@"),
                }
                s.append(l.string.as_str());
                Some(s)
            },
            None => None,
        }
    }
}

} // verus!
