//! The registry strategy: turning a registry tag-listing response into a
//! version list.
//!
//! The response body is a JSON object whose `results` member is an array
//! of objects, each carrying the tag under its `name` member.  The parse
//! is fail-closed: a single malformed entry fails the whole fetch with
//! the detail of the first failure; an empty array is a valid, empty
//! result.  [`spec_docker_parse`] states that reading exactly, over the
//! named model of the JSON tree, and the parser is proved against it.

use vstd::prelude::*;
use vstd::string::StrSliceExecFns;
use vstd::string::StringExecFns;

use crate::error::Error;
use crate::error::ErrorView;
use crate::resource::has_prefix;
use crate::updater::json::JsonView;
use crate::updater::json::json_as_array;
use crate::updater::json::json_as_object;
use crate::updater::json::json_as_str;
use crate::updater::json::json_from_str;
use crate::updater::json::json_object_get;
use crate::updater::json::json_of;
use crate::updater::json::json_view;
use crate::updater::spec_is_success;
use crate::version::Version;
use crate::version::VersionView;
use crate::version::spec_version_of;

verus! {

/// The registry strategy marker.
#[derive(Clone, Copy, Debug)]
pub struct Docker {}

/// The registry tag-listing URL for a `docker://` reference string, or
/// `None` for any other string.
pub open spec fn spec_docker_url(s: Seq<char>) -> Option<Seq<char>> {
    let p = "docker://"@;
    if s.len() >= p.len() && s.take(p.len() as int) == p {
        Some("https://registry.hub.docker.com/v1/repositories/"@ + s.skip(p.len() as int) + "/tags"@)
    } else {
        None
    }
}

/// The fetch URL for a `docker://` reference string.
pub fn url(resource: &str) -> (r: Option<String>)
    ensures
        match r {
            Some(u) => spec_docker_url(resource@) == Some(u@),
            None => spec_docker_url(resource@) is None,
        },
{
    let p = "docker://";
    if !has_prefix(resource, p) {
        return None;
    }
    let n = resource.unicode_len();
    let plen = p.unicode_len();
    let path = resource.substring_char(plen, n);
    assert(path@ =~= resource@.skip(p@.len() as int));
    let mut s = String::from_str("https://registry.hub.docker.com/v1/repositories/");
    s.append(path);
    s.append("/tags");
    Some(s)
}

/// The reading of one entry of the `results` array: the version its
/// `name` member denotes, or the detail of the failure.
pub open spec fn spec_docker_entry(j: JsonView) -> Result<VersionView, Seq<char>> {
    match j {
        JsonView::Object { members } => {
            if members.contains_key("name"@) {
                match members["name"@] {
                    JsonView::Text { value } => Ok(spec_version_of(value)),
                    _ => Err("invalid type for \"name\" field in \"result\" object"@),
                }
            } else {
                Err("\"name\" field not found in \"result\" object"@)
            }
        },
        _ => Err("invalid type for \"result\" object"@),
    }
}

/// The reading of the `results` array: one version per entry, in array
/// order; the first malformed entry fails the whole reading with its
/// detail (fail-closed, no entry is skipped).
pub open spec fn spec_docker_entries(items: Seq<JsonView>) -> Result<Seq<VersionView>, Seq<char>>
    decreases items.len(),
{
    if items.len() == 0 {
        Ok(Seq::empty())
    } else {
        match spec_docker_entry(items[0]) {
            Ok(v) => match spec_docker_entries(items.drop_first()) {
                Ok(vs) => Ok(seq![v] + vs),
                Err(d) => Err(d),
            },
            Err(d) => Err(d),
        }
    }
}

/// The registry tag-listing reading of a whole JSON tree: the versions
/// of the `results` array of the top object, or the detail of the first
/// structural failure.
pub open spec fn spec_docker_parse(j: JsonView) -> Result<Seq<VersionView>, Seq<char>> {
    match j {
        JsonView::Object { members } => {
            if members.contains_key("results"@) {
                match members["results"@] {
                    JsonView::Array { items } => spec_docker_entries(items),
                    _ => Err("invalid type for \"results\" list"@),
                }
            } else {
                Err("could not find \"results\" member"@)
            }
        },
        _ => Err("invalid type for top object"@),
    }
}

/// How [`spec_docker_entries`] behaves on an array whose first `k`
/// entries are well-formed: with all entries well-formed it succeeds
/// with exactly their versions in order, and with entry `k` malformed it
/// fails with exactly that entry's detail.
pub(crate) proof fn lemma_docker_entries_prefix(items: Seq<JsonView>, k: int)
    requires
        0 <= k <= items.len(),
        forall|j: int| 0 <= j < k ==> spec_docker_entry(#[trigger] items[j]) is Ok,
    ensures
        k == items.len() ==> (spec_docker_entries(items) matches Ok(ws) && ws.len() == k && forall|
            j: int,
        | 0 <= j < k ==> ws[j] == spec_docker_entry(#[trigger] items[j])->Ok_0),
        (k < items.len() && spec_docker_entry(items[k]) is Err) ==> spec_docker_entries(items)
            == Err::<Seq<VersionView>, Seq<char>>(spec_docker_entry(items[k])->Err_0),
    decreases items.len(),
{
    if items.len() > 0 && k > 0 {
        lemma_docker_entries_prefix(items.drop_first(), k - 1);
        assert(forall|j: int|
            0 <= j < items.drop_first().len() ==> #[trigger] items.drop_first()[j] == items[j + 1]);
        if k == items.len() {
            let v0 = spec_docker_entry(items[0])->Ok_0;
            let ws_rest = spec_docker_entries(items.drop_first())->Ok_0;
            assert(spec_docker_entries(items) == Ok::<Seq<VersionView>, Seq<char>>(
                seq![v0] + ws_rest,
            ));
            assert forall|j: int| 0 <= j < k implies (seq![v0] + ws_rest)[j] == spec_docker_entry(
                #[trigger] items[j],
            )->Ok_0 by {
                if j > 0 {
                    assert((seq![v0] + ws_rest)[j] == ws_rest[j - 1]);
                    assert(items.drop_first()[j - 1] == items[j]);
                } else {
                    assert((seq![v0] + ws_rest)[0] == v0);
                }
            }
        }
    }
}

/// Parse a registry tag-listing value tree into versions.  The result
/// is exactly the tree's registry reading: on success one version per
/// `name` member of the `results` array, in array order, and otherwise
/// the JSON-parsing error whose detail the reading gives.
pub fn parse_versions(data: &serde_json::Value) -> (r: Result<Vec<Version>, Error>)
    ensures
        ({
            let p = spec_docker_parse(json_view(*data));
            match r {
                Ok(vs) => p matches Ok(ws) && vs.deep_view() == ws,
                Err(e) => p matches Err(d) && e@ == (ErrorView::JsonParsing { detail: d }),
            }
        }),
{
    let obj = match json_as_object(data) {
        Some(o) => o,
        None => {
            return Err(Error::JsonParsing { detail: String::from_str("invalid type for top object") });
        },
    };
    let results = match json_object_get(obj, "results") {
        Some(m) => m,
        None => {
            return Err(
                Error::JsonParsing {
                    detail: String::from_str("could not find \"results\" member"),
                },
            );
        },
    };
    let arr = match json_as_array(results) {
        Some(a) => a,
        None => {
            return Err(
                Error::JsonParsing {
                    detail: String::from_str("invalid type for \"results\" list"),
                },
            );
        },
    };
    let ghost items = json_view(*results)->items;
    let mut versions: Vec<Version> = Vec::new();
    let mut idx: usize = 0;
    while idx < arr.len()
        invariant
            0 <= idx <= arr@.len(),
            items == json_view(*results)->items,
            json_view(*results) is Array,
            spec_docker_parse(json_view(*data)) == spec_docker_entries(items),
            items.len() == arr@.len(),
            forall|i: int| 0 <= i < arr@.len() ==> items[i] == json_view(#[trigger] arr@[i]),
            versions@.len() == idx,
            forall|j: int| 0 <= j < idx ==> spec_docker_entry(#[trigger] items[j]) is Ok,
            forall|j: int|
                0 <= j < idx ==> versions.deep_view()[j] == spec_docker_entry(
                    #[trigger] items[j],
                )->Ok_0,
        decreases arr@.len() - idx,
    {
        let entry = &arr[idx];
        let entry_obj = match json_as_object(entry) {
            Some(o) => o,
            None => {
                proof {
                    lemma_docker_entries_prefix(items, idx as int);
                }
                return Err(
                    Error::JsonParsing {
                        detail: String::from_str("invalid type for \"result\" object"),
                    },
                );
            },
        };
        let name = match json_object_get(entry_obj, "name") {
            Some(m) => m,
            None => {
                proof {
                    lemma_docker_entries_prefix(items, idx as int);
                }
                return Err(
                    Error::JsonParsing {
                        detail: String::from_str(
                            "\"name\" field not found in \"result\" object",
                        ),
                    },
                );
            },
        };
        let name_str = match json_as_str(name) {
            Some(s) => s,
            None => {
                proof {
                    lemma_docker_entries_prefix(items, idx as int);
                }
                return Err(
                    Error::JsonParsing {
                        detail: String::from_str(
                            "invalid type for \"name\" field in \"result\" object",
                        ),
                    },
                );
            },
        };
        let ghost pre = versions.deep_view();
        let version = Version::new(name_str).unwrap();
        versions.push(version);
        proof {
            assert(versions.deep_view() =~= pre.push(version@));
            assert(spec_docker_entry(items[idx as int]) == Ok::<VersionView, Seq<char>>(
                spec_version_of(name_str@),
            ));
        }
        idx = idx + 1;
    }
    proof {
        lemma_docker_entries_prefix(items, items.len() as int);
        let ws = spec_docker_entries(items)->Ok_0;
        assert forall|j: int| 0 <= j < items.len() implies versions.deep_view()[j] == ws[j] by {
            assert(spec_docker_entry(items[j]) is Ok);
        }
        assert(versions.deep_view() =~= ws);
    }
    Ok(versions)
}

/// The compute half of a registry fetch: judge the HTTP status, then
/// parse the body.  A status outside the success range yields exactly
/// the typed HTTP error for that URL and status, and nothing is parsed.
/// On a success status the result is exactly the registry reading of
/// the body's JSON tree — so a well-formed body with zero entries is a
/// valid, empty success — and a body that is no JSON document at all is
/// a JSON-parsing error.
pub fn get_versions(url: &str, status: u16, body: &str) -> (r: Result<Vec<Version>, Error>)
    ensures
        !spec_is_success(status) ==> (r matches Err(e) && e@ == (ErrorView::HttpError {
            url: url@,
            status,
        })),
        spec_is_success(status) ==> match json_of(body@) {
            Some(j) => ({
                match r {
                    Ok(vs) => spec_docker_parse(j) matches Ok(ws) && vs.deep_view() == ws,
                    Err(e) => spec_docker_parse(j) matches Err(d) && e@ == (ErrorView::JsonParsing {
                        detail: d,
                    }),
                }
            }),
            None => r matches Err(e) && e@ is JsonParsing,
        },
{
    if !(200 <= status && status < 300) {
        return Err(Error::HttpError { url: url.to_owned(), status });
    }
    let data = match json_from_str(body) {
        Ok(v) => v,
        Err(detail) => {
            return Err(Error::JsonParsing { detail });
        },
    };
    parse_versions(&data)
}

} // verus!
