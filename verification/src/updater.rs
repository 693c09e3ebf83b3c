//! The names the update check and installation agree on with the release page.

use vstd::prelude::*;

verus! {

/// The release tag of `version`: a `v` in front of the version number.
pub fn release_tag(version: &str) -> (tag: String)
    ensures
        tag@ == "v"@ + version@,
{
    let mut tag = "v".to_owned();
    tag.append(version);
    tag
}

/// Why an available release cannot be installed on this machine.
pub fn missing_asset_message(version: &str, target: &str) -> (m: String)
    ensures
        m@ == "Release v"@ + version@ + " does not contain a standalone build for "@ + target@
            + "."@,
{
    let mut message = "Release v".to_owned();
    message.append(version);
    message.append(" does not contain a standalone build for ");
    message.append(target);
    message.append(".");
    message
}

} // verus!
