//! The [`Resource`] type: the identity of an externally versioned
//! artifact, version excluded.
//!
//! A resource is either a container image or a source-host action,
//! optionally scoped to a sub-workflow path.  [`Resource::parse`] reads a
//! reference string such as `docker://image:tag`, `user/repo@tag` or
//! `user/repo/.github/workflows/file@tag` into a resource and its pinned
//! version; the grammar of each form is stated exactly, in specification
//! functions, and the parser is proved against it.

use vstd::prelude::*;
use vstd::string::StrSliceExecFns;
use vstd::string::StringExecFns;

use crate::error::Error;
use crate::error::ErrorView;
use crate::version::Version;
use crate::version::VersionView;
use crate::version::spec_version_of;

verus! {

/// Mathematical model of a [`Resource`]: the same shapes over character
/// sequences.
pub ghost enum ResourceView {
    Docker { container: Seq<char> },
    GhAction { user: Seq<char>, repo: Seq<char> },
    GhWorkflow { user: Seq<char>, repo: Seq<char>, workflow: Seq<char> },
}

/// The identity of a versioned artifact: a container image or a
/// source-host action, optionally scoped to a workflow file.
#[derive(Debug, PartialEq, Eq, Hash)]
pub enum Resource {
    Docker { container: String },
    GhAction { user: String, repo: String },
    GhWorkflow { user: String, repo: String, workflow: String },
}

impl View for Resource {
    type V = ResourceView;

    open spec fn view(&self) -> ResourceView {
        match self {
            Resource::Docker { container } => ResourceView::Docker { container: container@ },
            Resource::GhAction { user, repo } => ResourceView::GhAction {
                user: user@,
                repo: repo@,
            },
            Resource::GhWorkflow { user, repo, workflow } => ResourceView::GhWorkflow {
                user: user@,
                repo: repo@,
                workflow: workflow@,
            },
        }
    }
}

impl DeepView for Resource {
    type V = ResourceView;

    open spec fn deep_view(&self) -> ResourceView {
        self@
    }
}

impl Clone for Resource {
    fn clone(&self) -> (r: Self)
        ensures
            r == *self,
    {
        match self {
            Resource::Docker { container } => Resource::Docker { container: container.clone() },
            Resource::GhAction { user, repo } => Resource::GhAction {
                user: user.clone(),
                repo: repo.clone(),
            },
            Resource::GhWorkflow { user, repo, workflow } => Resource::GhWorkflow {
                user: user.clone(),
                repo: repo.clone(),
                workflow: workflow.clone(),
            },
        }
    }
}

// ---------------------------------------------------------------------------
// Character-sequence helpers shared by the grammar.
// ---------------------------------------------------------------------------
/// Whether `c` occurs in `s`.
pub open spec fn has_char(s: Seq<char>, c: char) -> bool {
    exists|i: int| 0 <= i < s.len() && s[i] == c
}

/// Index of the first occurrence of `c` in `s`, or `s.len()` when there
/// is none.
pub open spec fn find_char(s: Seq<char>, c: char) -> int
    decreases s.len(),
{
    if s.len() == 0 {
        0
    } else if s[0] == c {
        0
    } else {
        1 + find_char(s.drop_first(), c)
    }
}

fn find_char_s(s: &str, c: char) -> (r: usize)
    ensures
        r as int == find_char(s@, c),
        r <= s@.len(),
    decreases s@.len(),
{
    let n = s.unicode_len();
    if n == 0 {
        0
    } else if s.get_char(0) == c {
        0
    } else {
        let rest = s.substring_char(1, n);
        assert(rest@ =~= s@.drop_first());
        1 + find_char_s(rest, c)
    }
}

fn has_char_s(s: &str, c: char) -> (r: bool)
    ensures
        r == has_char(s@, c),
{
    let n = s.unicode_len();
    let mut i: usize = 0;
    while i < n
        invariant
            0 <= i <= n,
            n == s@.len(),
            forall|j: int| 0 <= j < i ==> s@[j] != c,
        decreases n - i,
    {
        if s.get_char(i) == c {
            return true;
        }
        i = i + 1;
    }
    false
}

pub(crate) fn has_prefix(s: &str, p: &str) -> (r: bool)
    ensures
        r == (s@.len() >= p@.len() && s@.take(p@.len() as int) == p@),
{
    let n = p.unicode_len();
    let sn = s.unicode_len();
    if sn < n {
        return false;
    }
    let mut i: usize = 0;
    while i < n
        invariant
            0 <= i <= n,
            n == p@.len(),
            sn == s@.len(),
            sn >= n,
            forall|j: int| 0 <= j < i ==> s@[j] == p@[j],
        decreases n - i,
    {
        if s.get_char(i) != p.get_char(i) {
            assert(s@.take(p@.len() as int) != p@) by {
                assert(s@.take(p@.len() as int)[i as int] == s@[i as int]);
            }
            return false;
        }
        i = i + 1;
    }
    assert(s@.take(p@.len() as int) =~= p@);
    true
}

// ---------------------------------------------------------------------------
// The reference grammar.
// ---------------------------------------------------------------------------
/// The container-image form: `docker://<container>:<version>`, where the
/// container part is non-empty and colon-free and the version part is
/// non-empty and colon-free.
pub open spec fn spec_parse_docker(s: Seq<char>) -> Option<(ResourceView, Seq<char>)> {
    let p = "docker://"@;
    if s.len() >= p.len() && s.take(p.len() as int) == p {
        let rest = s.skip(p.len() as int);
        let i = find_char(rest, ':');
        let vers = rest.skip(i + 1);
        if 0 < i && i < rest.len() && vers.len() > 0 && !has_char(vers, ':') {
            Some((ResourceView::Docker { container: rest.take(i) }, vers))
        } else {
            None
        }
    } else {
        None
    }
}

/// The sub-workflow form:
/// `<user>/<repo>/.github/workflows/<workflow>@<version>`, where user and
/// repo are non-empty and slash-free and workflow and version are
/// non-empty and at-sign-free.
pub open spec fn spec_parse_ghworkflow(s: Seq<char>) -> Option<(ResourceView, Seq<char>)> {
    let i = find_char(s, '/');
    if 0 < i && i < s.len() {
        let r1 = s.skip(i + 1);
        let j = find_char(r1, '/');
        if 0 < j && j < r1.len() {
            let r2 = r1.skip(j + 1);
            let w = ".github/workflows/"@;
            if r2.len() >= w.len() && r2.take(w.len() as int) == w {
                let r3 = r2.skip(w.len() as int);
                let k = find_char(r3, '@');
                let vers = r3.skip(k + 1);
                if 0 < k && k < r3.len() && vers.len() > 0 && !has_char(vers, '@') {
                    Some(
                        (
                            ResourceView::GhWorkflow {
                                user: s.take(i),
                                repo: r1.take(j),
                                workflow: r3.take(k),
                            },
                            vers,
                        ),
                    )
                } else {
                    None
                }
            } else {
                None
            }
        } else {
            None
        }
    } else {
        None
    }
}

/// The action form: `<user>/<repo>@<version>`, where user is non-empty
/// and slash-free, repo is non-empty and free of both slash and at-sign,
/// and version is non-empty and at-sign-free.
pub open spec fn spec_parse_ghaction(s: Seq<char>) -> Option<(ResourceView, Seq<char>)> {
    let i = find_char(s, '/');
    if 0 < i && i < s.len() {
        let rest = s.skip(i + 1);
        let j = find_char(rest, '@');
        let vers = rest.skip(j + 1);
        let repo = rest.take(j);
        if 0 < j && j < rest.len() && vers.len() > 0 && !has_char(vers, '@') && !has_char(
            repo,
            '/',
        ) {
            Some((ResourceView::GhAction { user: s.take(i), repo }, vers))
        } else {
            None
        }
    } else {
        None
    }
}

/// The whole reference grammar: the three forms are tried in order, the
/// container-image form first, the sub-workflow form before the plain
/// action form.
pub open spec fn spec_parse_resource(s: Seq<char>) -> Option<(ResourceView, Seq<char>)> {
    if spec_parse_docker(s) is Some {
        spec_parse_docker(s)
    } else if spec_parse_ghworkflow(s) is Some {
        spec_parse_ghworkflow(s)
    } else if spec_parse_ghaction(s) is Some {
        spec_parse_ghaction(s)
    } else {
        None
    }
}

fn try_parse_docker(input: &str) -> (r: Option<(Resource, Version)>)
    ensures
        match r {
            Some(rv) => spec_parse_docker(input@) matches Some(p) && p.0 == rv.0@ && rv.1@
                == spec_version_of(p.1),
            None => spec_parse_docker(input@) is None,
        },
{
    let p = "docker://";
    if !has_prefix(input, p) {
        return None;
    }
    let n = input.unicode_len();
    let plen = p.unicode_len();
    let rest = input.substring_char(plen, n);
    assert(rest@ =~= input@.skip(p@.len() as int));
    let rlen = rest.unicode_len();
    let i = find_char_s(rest, ':');
    if 0 < i && i < rlen {
        let vpart = rest.substring_char(i + 1, rlen);
        assert(vpart@ =~= rest@.skip(i + 1));
        let vlen = vpart.unicode_len();
        if vlen > 0 && !has_char_s(vpart, ':') {
            let cpart = rest.substring_char(0, i);
            assert(cpart@ =~= rest@.take(i as int));
            let version = Version::new(vpart).unwrap();
            return Some((Resource::Docker { container: cpart.to_owned() }, version));
        }
    }
    None
}

fn try_parse_ghworkflow(input: &str) -> (r: Option<(Resource, Version)>)
    ensures
        match r {
            Some(rv) => spec_parse_ghworkflow(input@) matches Some(p) && p.0 == rv.0@ && rv.1@
                == spec_version_of(p.1),
            None => spec_parse_ghworkflow(input@) is None,
        },
{
    let n = input.unicode_len();
    let i = find_char_s(input, '/');
    if !(0 < i && i < n) {
        return None;
    }
    let r1 = input.substring_char(i + 1, n);
    assert(r1@ =~= input@.skip(i + 1));
    let n1 = r1.unicode_len();
    let j = find_char_s(r1, '/');
    if !(0 < j && j < n1) {
        return None;
    }
    let r2 = r1.substring_char(j + 1, n1);
    assert(r2@ =~= r1@.skip(j + 1));
    let w = ".github/workflows/";
    if !has_prefix(r2, w) {
        return None;
    }
    let n2 = r2.unicode_len();
    let wlen = w.unicode_len();
    let r3 = r2.substring_char(wlen, n2);
    assert(r3@ =~= r2@.skip(w@.len() as int));
    let n3 = r3.unicode_len();
    let k = find_char_s(r3, '@');
    if !(0 < k && k < n3) {
        return None;
    }
    let vpart = r3.substring_char(k + 1, n3);
    assert(vpart@ =~= r3@.skip(k + 1));
    let vlen = vpart.unicode_len();
    if vlen > 0 && !has_char_s(vpart, '@') {
        let user = input.substring_char(0, i);
        assert(user@ =~= input@.take(i as int));
        let repo = r1.substring_char(0, j);
        assert(repo@ =~= r1@.take(j as int));
        let workflow = r3.substring_char(0, k);
        assert(workflow@ =~= r3@.take(k as int));
        let version = Version::new(vpart).unwrap();
        return Some(
            (
                Resource::GhWorkflow {
                    user: user.to_owned(),
                    repo: repo.to_owned(),
                    workflow: workflow.to_owned(),
                },
                version,
            ),
        );
    }
    None
}

fn try_parse_ghaction(input: &str) -> (r: Option<(Resource, Version)>)
    ensures
        match r {
            Some(rv) => spec_parse_ghaction(input@) matches Some(p) && p.0 == rv.0@ && rv.1@
                == spec_version_of(p.1),
            None => spec_parse_ghaction(input@) is None,
        },
{
    let n = input.unicode_len();
    let i = find_char_s(input, '/');
    if !(0 < i && i < n) {
        return None;
    }
    let rest = input.substring_char(i + 1, n);
    assert(rest@ =~= input@.skip(i + 1));
    let rlen = rest.unicode_len();
    let j = find_char_s(rest, '@');
    if !(0 < j && j < rlen) {
        return None;
    }
    let vpart = rest.substring_char(j + 1, rlen);
    assert(vpart@ =~= rest@.skip(j + 1));
    let repo = rest.substring_char(0, j);
    assert(repo@ =~= rest@.take(j as int));
    let vlen = vpart.unicode_len();
    if vlen > 0 && !has_char_s(vpart, '@') && !has_char_s(repo, '/') {
        let user = input.substring_char(0, i);
        assert(user@ =~= input@.take(i as int));
        let version = Version::new(vpart).unwrap();
        return Some(
            (Resource::GhAction { user: user.to_owned(), repo: repo.to_owned() }, version),
        );
    }
    None
}

impl Resource {
    pub fn new_docker(container: String) -> (r: Resource)
        ensures
            r@ == (ResourceView::Docker { container: container@ }),
    {
        Resource::Docker { container }
    }

    pub fn new_ghaction(user: String, repo: String) -> (r: Resource)
        ensures
            r@ == (ResourceView::GhAction { user: user@, repo: repo@ }),
    {
        Resource::GhAction { user, repo }
    }

    pub fn new_ghworkflow(user: String, repo: String, workflow: String) -> (r: Resource)
        ensures
            r@ == (ResourceView::GhWorkflow { user: user@, repo: repo@, workflow: workflow@ }),
    {
        Resource::GhWorkflow { user, repo, workflow }
    }

    pub fn is_docker(&self) -> (r: bool)
        ensures
            r == (self@ is Docker),
    {
        match self {
            Resource::Docker { .. } => true,
            _ => false,
        }
    }

    pub fn is_github(&self) -> (r: bool)
        ensures
            r == (self@ is GhAction || self@ is GhWorkflow),
    {
        match self {
            Resource::GhAction { .. } => true,
            Resource::GhWorkflow { .. } => true,
            _ => false,
        }
    }

    /// Structural equality of two resources.
    pub fn equals(&self, other: &Resource) -> (r: bool)
        ensures
            r == (self@ == other@),
    {
        match (self, other) {
            (Resource::Docker { container: a }, Resource::Docker { container: b }) => *a == *b,
            (
                Resource::GhAction { user: ua, repo: ra },
                Resource::GhAction { user: ub, repo: rb },
            ) => *ua == *ub && *ra == *rb,
            (
                Resource::GhWorkflow { user: ua, repo: ra, workflow: wa },
                Resource::GhWorkflow { user: ub, repo: rb, workflow: wb },
            ) => *ua == *ub && *ra == *rb && *wa == *wb,
            _ => false,
        }
    }

    /// Parse a reference string into a resource and its pinned version.
    /// Succeeds exactly on the strings of the reference grammar; every
    /// other string is rejected as an unrecognised resource scheme.
    pub fn parse(input: &str) -> (r: Result<(Resource, Version), Error>)
        ensures
            match r {
                Ok(rv) => spec_parse_resource(input@) matches Some(p) && p.0 == rv.0@ && rv.1@
                    == spec_version_of(p.1),
                Err(e) => spec_parse_resource(input@) is None && e@ == (ErrorView::UnknownResourceScheme {
                    input: input@,
                }),
            },
    {
        if let Some(rv) = try_parse_docker(input) {
            return Ok(rv);
        }
        if let Some(rv) = try_parse_ghworkflow(input) {
            return Ok(rv);
        }
        if let Some(rv) = try_parse_ghaction(input) {
            return Ok(rv);
        }
        Err(Error::UnknownResourceScheme { input: input.to_owned() })
    }
}

// ---------------------------------------------------------------------------
// Derived strings: upstream URL, display form, versioned reference.
// ---------------------------------------------------------------------------
/// The URL whose body lists the available versions of a resource: the
/// registry's tag-listing endpoint for an image, the source host's
/// matching-tag-refs endpoint for an action or workflow.
pub open spec fn spec_url(r: ResourceView) -> Seq<char> {
    match r {
        ResourceView::Docker { container } => "https://registry.hub.docker.com/v1/repositories/"@
            + container + "/tags"@,
        ResourceView::GhAction { user, repo } => "https://api.github.com/repos/"@ + user + "/"@
            + repo + "/git/matching-refs/tags"@,
        ResourceView::GhWorkflow { user, repo, .. } => "https://api.github.com/repos/"@ + user
            + "/"@ + repo + "/git/matching-refs/tags"@,
    }
}

/// The display form of a resource, as it appears inside a reference
/// string: `docker://<container>`, `<user>/<repo>` or
/// `<user>/<repo>/.github/workflows/<workflow>`.
pub open spec fn spec_display(r: ResourceView) -> Seq<char> {
    match r {
        ResourceView::Docker { container } => "docker://"@ + container,
        ResourceView::GhAction { user, repo } => user + "/"@ + repo,
        ResourceView::GhWorkflow { user, repo, workflow } => user + "/"@ + repo
            + "/.github/workflows/"@ + workflow,
    }
}

/// The full reference text for a resource pinned at a version: the
/// display form with `:<version>` appended for an image and `@<version>`
/// for an action or workflow.
pub open spec fn spec_versioned_string(r: ResourceView, v: VersionView) -> Seq<char> {
    match r {
        ResourceView::Docker { .. } => spec_display(r) + ":"@ + v.string,
        _ => spec_display(r) + "@"@ + v.string,
    }
}

impl Resource {
    /// The upstream URL that lists this resource's versions.
    pub fn url(&self) -> (r: String)
        ensures
            r@ == spec_url(self@),
    {
        match self {
            Resource::Docker { container } => {
                let mut s = String::from_str("https://registry.hub.docker.com/v1/repositories/");
                s.append(container.as_str());
                s.append("/tags");
                s
            },
            Resource::GhAction { user, repo } => {
                let mut s = String::from_str("https://api.github.com/repos/");
                s.append(user.as_str());
                s.append("/");
                s.append(repo.as_str());
                s.append("/git/matching-refs/tags");
                s
            },
            Resource::GhWorkflow { user, repo, .. } => {
                let mut s = String::from_str("https://api.github.com/repos/");
                s.append(user.as_str());
                s.append("/");
                s.append(repo.as_str());
                s.append("/git/matching-refs/tags");
                s
            },
        }
    }

    /// The display form of this resource.
    pub fn display_string(&self) -> (r: String)
        ensures
            r@ == spec_display(self@),
    {
        match self {
            Resource::Docker { container } => {
                let mut s = String::from_str("docker://");
                s.append(container.as_str());
                s
            },
            Resource::GhAction { user, repo } => {
                let mut s = String::new();
                s.append(user.as_str());
                s.append("/");
                s.append(repo.as_str());
                assert(s@ =~= user@ + "/"@ + repo@);
                s
            },
            Resource::GhWorkflow { user, repo, workflow } => {
                let mut s = String::new();
                s.append(user.as_str());
                s.append("/");
                s.append(repo.as_str());
                s.append("/.github/workflows/");
                s.append(workflow.as_str());
                assert(s@ =~= user@ + "/"@ + repo@ + "/.github/workflows/"@ + workflow@);
                s
            },
        }
    }

    /// The full reference text for this resource pinned at `version`.
    pub fn versioned_string(&self, version: &Version) -> (r: String)
        ensures
            r@ == spec_versioned_string(self@, version@),
    {
        let mut s = self.display_string();
        if self.is_docker() {
            s.append(":");
        } else {
            s.append("@");
        }
        s.append(version.string.as_str());
        s
    }
}

} // verus!
