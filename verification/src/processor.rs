//! The reporting decision of a run: which usage sites are outdated, and
//! the exact message that says so.

use vstd::prelude::*;
use vstd::string::StringExecFns;

use crate::cmd::OutputFormat;
use crate::resource::Resource;
use crate::resource::ResourceView;
use crate::resource::spec_display;
use crate::version::Version;
use crate::version::VersionView;

verus! {

/// The report line for an outdated usage site, in the given format.
pub open spec fn spec_update_message(
    output_format: OutputFormat,
    dryrun: bool,
    filename: Seq<char>,
    resource: ResourceView,
    current: VersionView,
    latest: VersionView,
) -> Seq<char> {
    match output_format {
        OutputFormat::Standard => {
            let base = filename + ": update "@ + spec_display(resource) + " from "@
                + current.string + " to "@ + latest.string;
            if dryrun {
                base + " (dryrun)"@
            } else {
                base
            }
        },
        OutputFormat::GithubWarning => "::warning file="@ + filename + "::update "@ + spec_display(
            resource,
        ) + " from "@ + current.string + " to "@ + latest.string,
    }
}

/// Decide whether a usage site is outdated and, if so, say so.  A site
/// whose pinned version equals the latest one is up to date and yields
/// no message; any other site yields exactly the report line for the
/// chosen format.
pub fn outdated_message(
    output_format: OutputFormat,
    dryrun: bool,
    filename: &str,
    resource: &Resource,
    current: &Version,
    latest: &Version,
) -> (r: Option<String>)
    ensures
        match r {
            None => current@ == latest@,
            Some(s) => current@ != latest@ && s@ == spec_update_message(
                output_format,
                dryrun,
                filename@,
                resource@,
                current@,
                latest@,
            ),
        },
{
    if current.equals(latest) {
        return None;
    }
    let mut s = match output_format {
        OutputFormat::Standard => {
            let mut s = String::new();
            s.append(filename);
            s.append(": update ");
            s
        },
        OutputFormat::GithubWarning => {
            let mut s = String::from_str("::warning file=");
            s.append(filename);
            s.append("::update ");
            s
        },
    };
    let display = resource.display_string();
    s.append(display.as_str());
    s.append(" from ");
    s.append(current.string.as_str());
    s.append(" to ");
    s.append(latest.string.as_str());
    if dryrun {
        match output_format {
            OutputFormat::Standard => s.append(" (dryrun)"),
            OutputFormat::GithubWarning => {},
        }
    }
    assert(s@ =~= spec_update_message(
        output_format,
        dryrun,
        filename@,
        resource@,
        current@,
        latest@,
    ));
    Some(s)
}

} // verus!
