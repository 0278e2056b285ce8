//! The resolution of the installed version: the highest of the versions
//! that the entries of the package root name.

use crate::text::texts_of;
use crate::version::{
    all_versions, highest_version, is_highest, is_version, parse_version, precedes_or_equals,
    semver_text, texts_held, version_text,
};
use vstd::prelude::*;

verus! {

/// Why the installed versions could not be resolved.
#[derive(Clone, Copy, PartialEq, Eq, Structural, Debug)]
pub enum ResolveError {
    /// The package root holds no entry.
    NoVersions,
    /// The entry at `index` is no semantic version.
    NotAVersion { index: usize },
}

/// `index` is the first of `names` that is no semantic version.
pub open spec fn first_rejected(names: Seq<Seq<char>>, index: int) -> bool {
    &&& 0 <= index < names.len()
    &&& !is_version(names[index])
    &&& forall|i: int| 0 <= i < index ==> is_version(#[trigger] names[i])
}

/// Two listings hold the same names, in whatever order and however often.
pub open spec fn same_names(names: Seq<Seq<char>>, relisted: Seq<Seq<char>>) -> bool {
    forall|name: Seq<char>| names.contains(name) <==> relisted.contains(name)
}

/// What the names of the entries of a package root resolve to: the highest
/// of the versions that they name, or the reason why there is none.
pub open spec fn resolution_of(names: Seq<Seq<char>>) -> Result<Seq<char>, ResolveError> {
    if names.len() == 0 {
        Err(ResolveError::NoVersions)
    } else if !all_versions(names) {
        Err(
            ResolveError::NotAVersion {
                index: choose|index: usize| first_rejected(names, index as int),
            },
        )
    } else {
        Ok(choose|text: Seq<char>| is_highest(names, text))
    }
}

/// What `get_local_version` returns, as a mathematical value.
pub open spec fn resolved(local: Result<String, ResolveError>) -> Result<Seq<char>, ResolveError> {
    match local {
        Ok(text) => Ok(text@),
        Err(error) => Err(error),
    }
}

/// Parses every entry name, and stops at the first that is no version. The
/// versions hold the names that they were parsed from.
pub fn parse_versions(entries: &Vec<String>) -> (parsed: Result<Vec<semver::Version>, ResolveError>)
    ensures
        match parsed {
            Ok(versions) => all_versions(texts_of(entries@)) && texts_held(versions@) == texts_of(
                entries@,
            ),
            Err(ResolveError::NotAVersion { index }) => first_rejected(
                texts_of(entries@),
                index as int,
            ),
            Err(ResolveError::NoVersions) => false,
        },
{
    let ghost names = texts_of(entries@);
    let mut versions: Vec<semver::Version> = Vec::new();
    let mut i: usize = 0;
    while i < entries.len()
        invariant
            i <= entries.len(),
            names == texts_of(entries@),
            versions@.len() == i,
            forall|k: int| 0 <= k < i ==> is_version(#[trigger] names[k]),
            forall|k: int| 0 <= k < i ==> semver_text(#[trigger] versions@[k]) == names[k],
        decreases entries.len() - i,
    {
        match parse_version(entries[i].as_str()) {
            Ok(version) => {
                versions.push(version);
            },
            Err(_) => {
                return Err(ResolveError::NotAVersion { index: i });
            },
        }
        i += 1;
    }
    assert(texts_held(versions@) =~= names);
    Ok(versions)
}

/// The highest installed version, from the names of the entries of the
/// package root. Every entry has to be a semantic version: one that is not
/// fails the resolution, and so does a root without entries.
///
/// The result is one of the entry names, none of the entries comes after it,
/// and it is the only text that the entries resolve to, in whatever order
/// they are listed.
pub fn get_local_version(entries: &Vec<String>) -> (local: Result<String, ResolveError>)
    ensures
        match local {
            Ok(text) => {
                &&& all_versions(texts_of(entries@))
                &&& texts_of(entries@).contains(text@)
                &&& is_version(text@)
                &&& is_highest(texts_of(entries@), text@)
                &&& forall|relisted: Seq<Seq<char>>, other: Seq<char>|
                    same_names(texts_of(entries@), relisted) && #[trigger] is_highest(
                        relisted,
                        other,
                    ) ==> other == text@
            },
            Err(ResolveError::NoVersions) => entries@.len() == 0,
            Err(ResolveError::NotAVersion { index }) => first_rejected(
                texts_of(entries@),
                index as int,
            ),
        },
        resolved(local) == resolution_of(texts_of(entries@)),
{
    let ghost names = texts_of(entries@);
    let versions = match parse_versions(entries) {
        Ok(versions) => versions,
        Err(error) => {
            proof {
                let index = error->index;
                let chosen = choose|index: usize| first_rejected(names, index as int);
                assert(first_rejected(names, index as int));
                assert(chosen == index) by {
                    if chosen < index {
                        assert(is_version(names[chosen as int]));
                    } else if index < chosen {
                        assert(is_version(names[index as int]));
                    }
                }
            }
            return Err(error);
        },
    };
    let ghost parsed = versions@;
    assert(names.len() == parsed.len()) by {
        assert(texts_held(parsed).len() == parsed.len());
    }
    match highest_version(versions) {
        None => Err(ResolveError::NoVersions),
        Some(top) => {
            let text = version_text(&top);
            proof {
                assert(is_highest(names, text@));
                let here = choose|here: int| 0 <= here < names.len() && names[here] == text@;
                assert(is_version(names[here]));
                assert forall|relisted: Seq<Seq<char>>, other: Seq<char>|
                    same_names(names, relisted) && #[trigger] is_highest(
                        relisted,
                        other,
                    ) implies other == text@ by {
                    lemma_highest_ignores_listing_order(names, relisted, other);
                    lemma_highest_meet(names, text@, other);
                    let at = choose|at: int| 0 <= at < names.len() && names[at] == other;
                    assert(semver_text(parsed[at]) == texts_held(parsed)[at]);
                }
                assert(same_names(names, names));
                assert(resolution_of(names) == Ok::<Seq<char>, ResolveError>(text@));
            }
            Ok(text)
        },
    }
}

/// An entry that is no semantic version is never skipped: one such name
/// among the entries, wherever it stands, and the listing resolves to no
/// version.
pub proof fn lemma_bad_entry_fails_resolution(names: Seq<Seq<char>>, index: int)
    requires
        0 <= index < names.len(),
        !is_version(names[index]),
    ensures
        resolution_of(names) is Err,
        resolution_of(names)->Err_0 is NotAVersion,
        forall|text: Seq<char>| resolution_of(names) != Ok::<Seq<char>, ResolveError>(text),
{
}

/// Of two highest versions of the same listing each precedes or equals the
/// other.
proof fn lemma_highest_meet(versions: Seq<Seq<char>>, top: Seq<char>, rival: Seq<char>)
    requires
        is_highest(versions, top),
        is_highest(versions, rival),
    ensures
        precedes_or_equals(top, rival),
        precedes_or_equals(rival, top),
{
    let i = choose|i: int| 0 <= i < versions.len() && versions[i] == top;
    let j = choose|j: int| 0 <= j < versions.len() && versions[j] == rival;
    assert(precedes_or_equals(versions[i], rival));
    assert(precedes_or_equals(versions[j], top));
}

/// Which version is the highest does not depend on the order in which the
/// versions are listed, nor on how often one is listed: two listings that
/// hold the same names have the same highest versions.
pub proof fn lemma_highest_ignores_listing_order(
    listed: Seq<Seq<char>>,
    relisted: Seq<Seq<char>>,
    top: Seq<char>,
)
    requires
        same_names(listed, relisted),
    ensures
        is_highest(listed, top) <==> is_highest(relisted, top),
{
    if is_highest(listed, top) {
        lemma_highest_carries_over(listed, relisted, top);
    }
    if is_highest(relisted, top) {
        lemma_highest_carries_over(relisted, listed, top);
    }
}

/// A highest version of one listing is a highest version of every listing
/// that holds it and holds no version that the first one lacks.
proof fn lemma_highest_carries_over(
    listed: Seq<Seq<char>>,
    relisted: Seq<Seq<char>>,
    top: Seq<char>,
)
    requires
        forall|version: Seq<char>| relisted.contains(version) ==> listed.contains(version),
        listed.contains(top) ==> relisted.contains(top),
        is_highest(listed, top),
    ensures
        is_highest(relisted, top),
{
    assert forall|j: int| 0 <= j < relisted.len() implies precedes_or_equals(
        #[trigger] relisted[j],
        top,
    ) by {
        assert(relisted.contains(relisted[j]));
        let i = choose|i: int| 0 <= i < listed.len() && listed[i] == relisted[j];
        assert(precedes_or_equals(listed[i], top));
    }
}

} // verus!
