//! The calls into `semver` that version handling makes.

use vstd::prelude::*;

verus! {

/// A version that `semver` refused, and why.
#[verifier::external_type_specification]
#[verifier::external_body]
pub struct ExSemverError(semver::Error);

/// Whether `semver` parses the text as a version.
pub uninterp spec fn semver_parses(s: Seq<char>) -> bool;

/// Whether `semver` parses the text as a version requirement.
pub uninterp spec fn semver_req_parses(s: Seq<char>) -> bool;

/// Whether two versions `semver` parsed are equal (all fields, build
/// metadata included).
pub uninterp spec fn semver_eq(a: Seq<char>, b: Seq<char>) -> bool;

/// Whether the first version sorts before the second in `semver`'s order.
pub uninterp spec fn semver_lt(a: Seq<char>, b: Seq<char>) -> bool;

/// Whether a version satisfies a requirement.
pub uninterp spec fn semver_req_matches(req: Seq<char>, version: Seq<char>) -> bool;

/// `semver::Version::parse(s).is_ok()`.
#[verifier::external_body]
pub(crate) fn version_parses(s: &str) -> (r: bool)
    ensures
        r == semver_parses(s@),
{
    semver::Version::parse(s).is_ok()
}

/// `semver::VersionReq::parse(s).is_ok()`.
#[verifier::external_body]
pub(crate) fn version_req_parses(s: &str) -> (r: bool)
    ensures
        r == semver_req_parses(s@),
{
    semver::VersionReq::parse(s).is_ok()
}

/// `==` on two parsed `semver::Version`s (derived: every field is compared).
#[verifier::external_body]
pub(crate) fn version_equal(a: &str, b: &str) -> (r: bool)
    requires
        semver_parses(a@),
        semver_parses(b@),
    ensures
        r == semver_eq(a@, b@),
{
    semver::Version::parse(a).unwrap() == semver::Version::parse(b).unwrap()
}

/// `<` on two parsed `semver::Version`s (the derived order of major, minor,
/// patch, pre-release and build metadata). `Version` implements `Ord`, a
/// total order (std's documentation asks that of every `Ord`, and semver's
/// hand-written orders of pre-release and build metadata are ones), so
/// when `a` is before `b`, `b` is not before `a`, and every version that is
/// not after `a` is before `b` and `b` is not before it.
#[verifier::external_body]
pub(crate) fn version_less(a: &str, b: &str) -> (r: bool)
    requires
        semver_parses(a@),
        semver_parses(b@),
    ensures
        r == semver_lt(a@, b@),
        r ==> !semver_lt(b@, a@),
        r ==> forall|c: Seq<char>| semver_parses(c) && !semver_lt(a@, c) ==> #[trigger] semver_lt(c, b@) && !semver_lt(b@, c),
{
    semver::Version::parse(a).unwrap() < semver::Version::parse(b).unwrap()
}

/// `semver::VersionReq::matches` on a parsed requirement and version.
#[verifier::external_body]
pub(crate) fn version_req_matches(req: &str, version: &str) -> (r: bool)
    requires
        semver_req_parses(req@),
        semver_parses(version@),
    ensures
        r == semver_req_matches(req@, version@),
{
    semver::VersionReq::parse(req).unwrap().matches(&semver::Version::parse(version).unwrap())
}

/// `semver::Version::parse(s)`, keeping only whether it succeeded: `Ok`
/// exactly when the text is a valid version.
#[verifier::external_body]
pub(crate) fn parse_version_checked(s: &str) -> (r: Result<(), semver::Error>)
    ensures
        r is Ok == semver_parses(s@),
{
    match semver::Version::parse(s) {
        Ok(_) => Ok(()),
        Err(e) => Err(e),
    }
}

} // verus!
