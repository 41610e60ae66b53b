//! Version compatibility: a peer's advertised version against the configured
//! semver requirement.
use vstd::prelude::*;

verus! {

/// Whether the advertised version bytes satisfy the requirement string, as
/// semver reads them; both are read as UTF-8 semver text, and anything that
/// does not parse matches nothing.
pub uninterp spec fn semver_matches(req: Seq<char>, version: Seq<u8>) -> bool;

/// Relies on semver's `VersionReq::parse`, `Version::parse` and
/// `VersionReq::matches`: the verdict depends on the two strings alone.
#[verifier::external_body]
pub fn version_match(req: &str, version: &Vec<u8>) -> (r: bool)
    ensures
        r == semver_matches(req@, version@),
{
    let parsed_req = match semver::VersionReq::parse(req) {
        Ok(q) => q,
        Err(_) => return false,
    };
    let text = match core::str::from_utf8(version.as_slice()) {
        Ok(t) => t,
        Err(_) => return false,
    };
    let parsed_version = match semver::Version::parse(text) {
        Ok(v) => v,
        Err(_) => return false,
    };
    parsed_req.matches(&parsed_version)
}

} // verus!
