//! Semantic versions, as the `semver` crate parses, orders and writes them.

use vstd::prelude::*;
use vstd::seq_lib::{to_multiset_contains, to_multiset_len};

verus! {

/// A parsed semantic version. It is made and ordered by the `semver` crate
/// and carried through here as it is.
#[verifier::external_type_specification]
#[verifier::external_body]
pub struct ExVersion(semver::Version);

/// Why a text is no semantic version.
#[verifier::external_type_specification]
#[verifier::external_body]
pub struct ExParseError(semver::Error);

/// The text that a `semver::Version` holds: what its `to_string` writes.
pub uninterp spec fn semver_text(version: semver::Version) -> Seq<char>;

/// Whether `semver::Version::parse` takes a text for a semantic version.
pub uninterp spec fn is_version(text: Seq<char>) -> bool;

/// The order of `semver::Version`, by the texts that two versions hold:
/// whether the first is less than or equal to the second.
pub uninterp spec fn precedes_or_equals(a: Seq<char>, b: Seq<char>) -> bool;

/// Every one of `texts` is a semantic version.
pub open spec fn all_versions(texts: Seq<Seq<char>>) -> bool {
    forall|i: int| 0 <= i < texts.len() ==> is_version(#[trigger] texts[i])
}

/// The texts that some versions hold, in their order.
pub open spec fn texts_held(versions: Seq<semver::Version>) -> Seq<Seq<char>> {
    Seq::new(versions.len(), |i: int| semver_text(versions[i]))
}

/// `top` is one of the version texts `held`, and none of them comes after
/// it.
pub open spec fn is_highest(held: Seq<Seq<char>>, top: Seq<char>) -> bool {
    &&& held.contains(top)
    &&& forall|j: int| 0 <= j < held.len() ==> precedes_or_equals(#[trigger] held[j], top)
}

/// Calls `semver::Version::parse`. Whether it succeeds is a function of the
/// text alone, and `is_version` is its name. The version that it returns
/// holds the text that was parsed: the parser takes the three numbers only
/// without leading zeros and keeps the pre-release and the build metadata
/// letter for letter, and that is what `to_string` writes again.
#[verifier::external_body]
pub(crate) fn parse_version(text: &str) -> (parsed: Result<semver::Version, semver::Error>)
    ensures
        match parsed {
            Ok(version) => is_version(text@) && semver_text(version) == text@,
            Err(_) => !is_version(text@),
        },
{
    semver::Version::parse(text)
}

/// Calls `sort` of std on a vector of `semver::Version`, which orders it by
/// their `Ord`: afterwards the vector holds the same versions as before, each
/// as often as before, in ascending order. `semver` documents its order as
/// total, so the sort does not panic.
#[verifier::external_body]
pub(crate) fn sort_versions(versions: &mut Vec<semver::Version>)
    ensures
        final(versions)@.to_multiset() == old(versions)@.to_multiset(),
        forall|i: int, j: int|
            0 <= i <= j < final(versions)@.len() ==> precedes_or_equals(
                #[trigger] semver_text(final(versions)@[i]),
                #[trigger] semver_text(final(versions)@[j]),
            ),
{
    versions.sort()
}

/// Calls `to_string` on a `semver::Version`, whose `Display` writes the
/// three numbers, then the pre-release behind `-` and the build metadata
/// behind `+` where there are any. `semver_text` names the result. Two
/// versions of which each is less than or equal to the other are equal in
/// all five parts, so the same text is written for both.
#[verifier::external_body]
pub(crate) fn version_text(version: &semver::Version) -> (text: String)
    ensures
        text@ == semver_text(*version),
        forall|other: semver::Version|
            precedes_or_equals(text@, #[trigger] semver_text(other)) && precedes_or_equals(
                semver_text(other),
                text@,
            ) ==> semver_text(other) == text@,
{
    version.to_string()
}

/// Tests whether `text` is a semantic version.
pub fn is_semantic_version(text: &str) -> (accepted: bool)
    ensures
        accepted == is_version(text@),
{
    match parse_version(text) {
        Ok(_) => true,
        Err(_) => false,
    }
}

/// The highest of some versions, or nothing where there is none.
pub fn highest_version(versions: Vec<semver::Version>) -> (top: Option<semver::Version>)
    ensures
        top is None <==> versions@.len() == 0,
        top matches Some(version) ==> versions@.contains(version) && is_highest(
            texts_held(versions@),
            semver_text(version),
        ),
{
    let mut sorted = versions;
    sort_versions(&mut sorted);
    let ghost ordered = sorted@;
    proof {
        to_multiset_len(ordered);
        to_multiset_len(versions@);
    }
    let top = sorted.pop();
    proof {
        if top is Some {
            let version = top->0;
            let n = versions@.len() as int;
            let held = texts_held(versions@);
            assert(ordered[n - 1] == version);
            assert(ordered.contains(version));
            to_multiset_contains(ordered, version);
            to_multiset_contains(versions@, version);
            assert(versions@.contains(version));
            let at = choose|at: int| 0 <= at < versions@.len() && versions@[at] == version;
            assert(held[at] == semver_text(version));
            assert forall|j: int| 0 <= j < held.len() implies precedes_or_equals(
                #[trigger] held[j],
                semver_text(version),
            ) by {
                assert(versions@.contains(versions@[j]));
                to_multiset_contains(versions@, versions@[j]);
                to_multiset_contains(ordered, versions@[j]);
                assert(ordered.contains(versions@[j]));
                let i = choose|i: int| 0 <= i < ordered.len() && ordered[i] == versions@[j];
                assert(precedes_or_equals(semver_text(ordered[i]), semver_text(ordered[n - 1])));
            }
        }
    }
    top
}

} // verus!
