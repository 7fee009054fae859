//! The source-host strategy: turning a matching-tag-refs response into a
//! version list.
//!
//! The response body is a JSON array of ref objects, each carrying a ref
//! string under its `ref` member.  Every ref string must have the form
//! `refs/tags/<version>`.  The parse is fail-closed: a single entry that
//! is malformed, or whose ref has any other shape, fails the whole fetch
//! with the detail of the first failure; an empty array is a valid,
//! empty result.  [`spec_github_parse`] states that reading exactly,
//! over the named model of the JSON tree, and the parser is proved
//! against it.

use vstd::prelude::*;
use vstd::string::StrSliceExecFns;
use vstd::string::StringExecFns;

use crate::error::Error;
use crate::error::ErrorView;
use crate::resource::has_prefix;
use crate::updater::json::JsonView;
use crate::updater::json::json_as_array;
use crate::updater::json::json_as_object;
use crate::updater::json::json_as_str;
use crate::updater::json::json_from_str;
use crate::updater::json::json_object_get;
use crate::updater::json::json_of;
use crate::updater::json::json_view;
use crate::updater::spec_is_success;
use crate::version::Version;
use crate::version::VersionView;
use crate::version::spec_version_of;

verus! {

/// The source-host strategy marker.
#[derive(Clone, Copy, Debug)]
pub struct Github {}

/// The version text inside a tag ref: a ref string `refs/tags/<version>`
/// with a non-empty version part yields that part, and any other string
/// yields nothing.
pub open spec fn spec_ref_version(s: Seq<char>) -> Option<Seq<char>> {
    let p = "refs/tags/"@;
    if s.len() > p.len() && s.take(p.len() as int) == p {
        Some(s.skip(p.len() as int))
    } else {
        None
    }
}

/// Parse one ref string into the version it pins: the tag text after
/// `refs/tags/`, read as a version.  A ref of any other shape is a
/// JSON-parsing error naming the offending ref.
pub fn version_from_ref(ref_str: &str) -> (r: Result<Version, Error>)
    ensures
        match r {
            Ok(v) => spec_ref_version(ref_str@) matches Some(tag) && v@ == spec_version_of(tag),
            Err(e) => spec_ref_version(ref_str@) is None && e@ == (ErrorView::JsonParsing {
                detail: "could not match github ref "@ + ref_str@ + " to tag regex"@,
            }),
        },
{
    let p = "refs/tags/";
    let n = ref_str.unicode_len();
    let plen = p.unicode_len();
    if has_prefix(ref_str, p) && n > plen {
        let tag = ref_str.substring_char(plen, n);
        assert(tag@ =~= ref_str@.skip(p@.len() as int));
        Ok(Version::new(tag).unwrap())
    } else {
        let mut detail = String::from_str("could not match github ref ");
        detail.append(ref_str);
        detail.append(" to tag regex");
        Err(Error::JsonParsing { detail })
    }
}

/// The reading of one entry of the refs array: the version its `ref`
/// member pins, or the detail of the failure.
pub open spec fn spec_github_entry(j: JsonView) -> Result<VersionView, Seq<char>> {
    match j {
        JsonView::Object { members } => {
            if members.contains_key("ref"@) {
                match members["ref"@] {
                    JsonView::Text { value } => match spec_ref_version(value) {
                        Some(tag) => Ok(spec_version_of(tag)),
                        None => Err(
                            "could not match github ref "@ + value + " to tag regex"@,
                        ),
                    },
                    _ => Err("invalid type for ref field in tag object"@),
                }
            } else {
                Err("ref field not found in tag object"@)
            }
        },
        _ => Err("invalid type for tag object"@),
    }
}

/// The reading of the refs array: one version per entry, in array
/// order; the first malformed entry fails the whole reading with its
/// detail (fail-closed, no entry is skipped).
pub open spec fn spec_github_entries(items: Seq<JsonView>) -> Result<Seq<VersionView>, Seq<char>>
    decreases items.len(),
{
    if items.len() == 0 {
        Ok(Seq::empty())
    } else {
        match spec_github_entry(items[0]) {
            Ok(v) => match spec_github_entries(items.drop_first()) {
                Ok(vs) => Ok(seq![v] + vs),
                Err(d) => Err(d),
            },
            Err(d) => Err(d),
        }
    }
}

/// The matching-tag-refs reading of a whole JSON tree: the versions of
/// the top array's ref objects, or the detail of the first structural
/// failure.
pub open spec fn spec_github_parse(j: JsonView) -> Result<Seq<VersionView>, Seq<char>> {
    match j {
        JsonView::Array { items } => spec_github_entries(items),
        _ => Err("invalid type for layer object list"@),
    }
}

/// How [`spec_github_entries`] behaves on an array whose first `k`
/// entries are well-formed: with all entries well-formed it succeeds
/// with exactly their versions in order, and with entry `k` malformed it
/// fails with exactly that entry's detail.
pub(crate) proof fn lemma_github_entries_prefix(items: Seq<JsonView>, k: int)
    requires
        0 <= k <= items.len(),
        forall|j: int| 0 <= j < k ==> spec_github_entry(#[trigger] items[j]) is Ok,
    ensures
        k == items.len() ==> (spec_github_entries(items) matches Ok(ws) && ws.len() == k && forall|
            j: int,
        | 0 <= j < k ==> ws[j] == spec_github_entry(#[trigger] items[j])->Ok_0),
        (k < items.len() && spec_github_entry(items[k]) is Err) ==> spec_github_entries(items)
            == Err::<Seq<VersionView>, Seq<char>>(spec_github_entry(items[k])->Err_0),
    decreases items.len(),
{
    if items.len() > 0 && k > 0 {
        lemma_github_entries_prefix(items.drop_first(), k - 1);
        assert(forall|j: int|
            0 <= j < items.drop_first().len() ==> #[trigger] items.drop_first()[j] == items[j + 1]);
        if k == items.len() {
            let v0 = spec_github_entry(items[0])->Ok_0;
            let ws_rest = spec_github_entries(items.drop_first())->Ok_0;
            assert(spec_github_entries(items) == Ok::<Seq<VersionView>, Seq<char>>(
                seq![v0] + ws_rest,
            ));
            assert forall|j: int| 0 <= j < k implies (seq![v0] + ws_rest)[j] == spec_github_entry(
                #[trigger] items[j],
            )->Ok_0 by {
                if j > 0 {
                    assert((seq![v0] + ws_rest)[j] == ws_rest[j - 1]);
                    assert(items.drop_first()[j - 1] == items[j]);
                } else {
                    assert((seq![v0] + ws_rest)[0] == v0);
                }
            }
        }
    }
}

/// Parse a matching-tag-refs value tree into versions.  The result is
/// exactly the tree's matching-refs reading: on success one version per
/// ref string of the array, in array order, and otherwise the
/// JSON-parsing error whose detail the reading gives.
pub fn parse_versions(data: &serde_json::Value) -> (r: Result<Vec<Version>, Error>)
    ensures
        ({
            let p = spec_github_parse(json_view(*data));
            match r {
                Ok(vs) => p matches Ok(ws) && vs.deep_view() == ws,
                Err(e) => p matches Err(d) && e@ == (ErrorView::JsonParsing { detail: d }),
            }
        }),
{
    let arr = match json_as_array(data) {
        Some(a) => a,
        None => {
            return Err(
                Error::JsonParsing {
                    detail: String::from_str("invalid type for layer object list"),
                },
            );
        },
    };
    let ghost items = json_view(*data)->items;
    let mut versions: Vec<Version> = Vec::new();
    let mut idx: usize = 0;
    while idx < arr.len()
        invariant
            0 <= idx <= arr@.len(),
            items == json_view(*data)->items,
            json_view(*data) is Array,
            items.len() == arr@.len(),
            forall|i: int| 0 <= i < arr@.len() ==> items[i] == json_view(#[trigger] arr@[i]),
            versions@.len() == idx,
            forall|j: int| 0 <= j < idx ==> spec_github_entry(#[trigger] items[j]) is Ok,
            forall|j: int|
                0 <= j < idx ==> versions.deep_view()[j] == spec_github_entry(
                    #[trigger] items[j],
                )->Ok_0,
        decreases arr@.len() - idx,
    {
        let entry = &arr[idx];
        let entry_obj = match json_as_object(entry) {
            Some(o) => o,
            None => {
                proof {
                    lemma_github_entries_prefix(items, idx as int);
                }
                return Err(
                    Error::JsonParsing { detail: String::from_str("invalid type for tag object") },
                );
            },
        };
        let ref_val = match json_object_get(entry_obj, "ref") {
            Some(m) => m,
            None => {
                proof {
                    lemma_github_entries_prefix(items, idx as int);
                }
                return Err(
                    Error::JsonParsing {
                        detail: String::from_str("ref field not found in tag object"),
                    },
                );
            },
        };
        let ref_str = match json_as_str(ref_val) {
            Some(s) => s,
            None => {
                proof {
                    lemma_github_entries_prefix(items, idx as int);
                }
                return Err(
                    Error::JsonParsing {
                        detail: String::from_str("invalid type for ref field in tag object"),
                    },
                );
            },
        };
        let version = match version_from_ref(ref_str) {
            Ok(v) => v,
            Err(e) => {
                proof {
                    lemma_github_entries_prefix(items, idx as int);
                }
                return Err(e);
            },
        };
        let ghost pre = versions.deep_view();
        versions.push(version);
        proof {
            assert(versions.deep_view() =~= pre.push(version@));
            assert(spec_github_entry(items[idx as int]) == Ok::<VersionView, Seq<char>>(version@));
        }
        idx = idx + 1;
    }
    proof {
        lemma_github_entries_prefix(items, items.len() as int);
        let ws = spec_github_entries(items)->Ok_0;
        assert forall|j: int| 0 <= j < items.len() implies versions.deep_view()[j] == ws[j] by {
            assert(spec_github_entry(items[j]) is Ok);
        }
        assert(versions.deep_view() =~= ws);
    }
    Ok(versions)
}

/// The compute half of a source-host fetch: judge the HTTP status, then
/// parse the body.  A status outside the success range yields exactly
/// the typed HTTP error for that URL and status, and nothing is parsed.
/// On a success status the result is exactly the matching-refs reading
/// of the body's JSON tree — so a well-formed body with zero entries is
/// a valid, empty success — and a body that is no JSON document at all
/// is a JSON-parsing error.
pub fn get_versions(url: &str, status: u16, body: &str) -> (r: Result<Vec<Version>, Error>)
    ensures
        !spec_is_success(status) ==> (r matches Err(e) && e@ == (ErrorView::HttpError {
            url: url@,
            status,
        })),
        spec_is_success(status) ==> match json_of(body@) {
            Some(j) => ({
                match r {
                    Ok(vs) => spec_github_parse(j) matches Ok(ws) && vs.deep_view() == ws,
                    Err(e) => spec_github_parse(j) matches Err(d) && e@ == (ErrorView::JsonParsing {
                        detail: d,
                    }),
                }
            }),
            None => r matches Err(e) && e@ is JsonParsing,
        },
{
    if !(200 <= status && status < 300) {
        return Err(Error::HttpError { url: url.to_owned(), status });
    }
    let data = match json_from_str(body) {
        Ok(v) => v,
        Err(detail) => {
            return Err(Error::JsonParsing { detail });
        },
    };
    parse_versions(&data)
}

} // verus!
