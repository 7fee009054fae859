//! The [`Entity`] type: one usage site of a versioned resource.
//!
//! An entity carries the original text of the usage line, the resource
//! it names, the version pinned there, and — once resolution has run —
//! the latest available version and the rewritten line.

use vstd::prelude::*;

use crate::error::Error;
use crate::resource::Resource;
use crate::resource::ResourceView;
use crate::updater::spec_updated_line;
use crate::updater::spec_updater_for;
use crate::updater::updater_for;
use crate::version::Version;
use crate::version::VersionView;
use crate::version::latest;
use crate::version::latest_of;

verus! {

/// Mathematical model of an [`Entity`].
pub ghost struct EntityView {
    pub line: Seq<char>,
    pub resource: ResourceView,
    pub version: VersionView,
    pub latest: Option<VersionView>,
    pub updated_line: Option<Seq<char>>,
}

/// One usage site: the original line, its resource, its pinned version,
/// and the resolution results once they are known.
#[derive(Debug)]
pub struct Entity {
    /// The whole entity-describing string.
    pub line: String,
    /// The resource part: the reference without the version.
    pub resource: Resource,
    /// The currently pinned version.
    pub version: Version,
    /// The latest version, once resolved.
    pub latest: Option<Version>,
    /// The rewritten entity-describing string, once resolved.
    pub updated_line: Option<String>,
}

impl View for Entity {
    type V = EntityView;

    open spec fn view(&self) -> EntityView {
        EntityView {
            line: self.line@,
            resource: self.resource@,
            version: self.version@,
            latest: match self.latest {
                Some(v) => Some(v@),
                None => None,
            },
            updated_line: match self.updated_line {
                Some(s) => Some(s@),
                None => None,
            },
        }
    }
}

impl Entity {
    /// A fresh usage site: nothing resolved yet.
    pub fn new(line: String, resource: Resource, version: Version) -> (r: Entity)
        ensures
            r@ == (EntityView {
                line: line@,
                resource: resource@,
                version: version@,
                latest: None,
                updated_line: None,
            }),
    {
        Entity { line, resource, version, latest: None, updated_line: None }
    }

    /// Fold a fetch outcome into this entity.  A failed fetch or an
    /// empty version list leaves the entity untouched — resolution
    /// degrades to "latest unknown", it never raises.  A non-empty list
    /// fills `latest` with its maximum under the version order and
    /// `updated_line` with the rewritten usage line.
    pub fn resolve(self, outcome: &Result<Vec<Version>, Error>) -> (r: Entity)
        ensures
            match outcome {
                Ok(vs) => if vs@.len() == 0 {
                    r == self
                } else {
                    r@ == (EntityView {
                        latest: Some(latest_of(vs.deep_view())),
                        updated_line: spec_updated_line(
                            spec_updater_for(self.resource@),
                            EntityView { latest: Some(latest_of(vs.deep_view())), ..self@ },
                        ),
                        ..self@
                    })
                },
                Err(_) => r == self,
            },
    {
        let versions = match outcome {
            Ok(vs) => vs,
            Err(_) => {
                return self;
            },
        };
        let latest_version = match latest(versions) {
            Some(v) => v,
            None => {
                return self;
            },
        };
        let mut entity = Entity {
            line: self.line,
            resource: self.resource,
            version: self.version,
            latest: Some(latest_version),
            updated_line: None,
        };
        let updater = match updater_for(&entity.resource) {
            Ok(u) => u,
            Err(_) => {
                return entity;
            },
        };
        entity.updated_line = updater.updated_line(&entity);
        entity
    }
}

} // verus!
