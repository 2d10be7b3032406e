//! Whether the mdbook that calls the preprocessor is one it was built for.
use semver::{Version, VersionReq};
use vstd::prelude::*;

verus! {

#[verifier::external_type_specification]
#[verifier::external_body]
pub struct ExVersion(Version);

#[verifier::external_type_specification]
#[verifier::external_body]
pub struct ExVersionReq(VersionReq);

#[verifier::external_type_specification]
#[verifier::external_body]
pub struct ExSemverError(semver::Error);

/// Whether semver reads `s` as a version.
pub uninterp spec fn is_version(s: Seq<char>) -> bool;

/// Whether semver reads `s` as a version requirement.
pub uninterp spec fn is_version_req(s: Seq<char>) -> bool;

/// Relies on semver::Version::parse: success depends on the text alone, and
/// the empty text is refused.
pub assume_specification[ semver::Version::parse ](text: &str) -> (r: Result<Version, semver::Error>)
    ensures
        r is Ok <==> is_version(text@),
        text@.len() == 0 ==> r is Err,
;

/// Relies on semver::VersionReq::parse: success depends on the text alone.
pub assume_specification[ semver::VersionReq::parse ](text: &str) -> (r: Result<VersionReq, semver::Error>)
    ensures
        r is Ok <==> is_version_req(text@),
;

/// Whether the version that semver reads from `version` meets the
/// requirement that it reads from `req`.
pub uninterp spec fn version_matches(req: Seq<char>, version: Seq<char>) -> bool;

/// Relies on semver::VersionReq::matches, whose answer depends on the two
/// parsed values alone, and so on the two texts; both texts parse, so the
/// unwraps do not fail.
#[verifier::external_body]
fn matches_version(req: &str, version: &str) -> (r: bool)
    requires
        is_version_req(req@),
        is_version(version@),
    ensures
        r == version_matches(req@, version@),
{
    VersionReq::parse(req).unwrap().matches(&Version::parse(version).unwrap())
}

/// A version text that could not be read.
#[derive(Debug, PartialEq, Eq, Structural)]
pub enum VersionError {
    /// The version of the calling mdbook.
    BookVersion,
    /// The requirement built into the preprocessor.
    Requirement,
}

/// Reads the calling mdbook's version and the requirement the preprocessor
/// was built with, and tells whether the one meets the other; `Ok(false)` is
/// a mismatch, to be reported as a warning.
pub fn check_version(book_version: &str, built_against: &str) -> (r: Result<bool, VersionError>)
    ensures
        r == Err::<bool, VersionError>(VersionError::BookVersion) <==> !is_version(book_version@),
        r == Err::<bool, VersionError>(VersionError::Requirement) <==> is_version(book_version@)
            && !is_version_req(built_against@),
        r is Ok <==> is_version(book_version@) && is_version_req(built_against@),
        r is Ok ==> r == Ok::<bool, VersionError>(version_matches(built_against@, book_version@)),
{
    if Version::parse(book_version).is_err() {
        return Err(VersionError::BookVersion);
    }
    if VersionReq::parse(built_against).is_err() {
        return Err(VersionError::Requirement);
    }
    Ok(matches_version(built_against, book_version))
}

} // verus!
