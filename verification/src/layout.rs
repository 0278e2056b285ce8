//! Where the package root is, and where a version is installed below it.

use crate::text::text_of;
use crate::version::{is_semantic_version, is_version};
use vstd::prelude::*;

verus! {

/// The directory of one installed version: `<root>/<version>`.
pub open spec fn version_dir_of(root: Seq<char>, version: Seq<char>) -> Seq<char> {
    root + "/"@ + version
}

/// The install target of one version: `<root>/<version>/arthas`. That this
/// directory exists is the one sign that the version is installed.
pub open spec fn install_target_of(root: Seq<char>, version: Seq<char>) -> Seq<char> {
    version_dir_of(root, version) + "/arthas"@
}

/// The package root below a home directory: `<home>/.arthas/lib`.
pub open spec fn lib_dir_under(home: Seq<char>) -> Seq<char> {
    home + "/.arthas/lib"@
}

/// The package root for an optional override and an optional home directory:
/// the override where there is one, else the default below the home
/// directory, and none where both are missing.
pub open spec fn lib_dir_of(overriding: Option<Seq<char>>, home: Option<Seq<char>>) -> Option<
    Seq<char>,
> {
    match overriding {
        Some(dir) => Some(dir),
        None => match home {
            Some(home) => Some(lib_dir_under(home)),
            None => None,
        },
    }
}

/// The directory of `version` below `root`, where `version` is a semantic
/// version, and nothing where it is not: no path is made of a text that is
/// no version.
pub open spec fn checked_version_dir(root: Seq<char>, version: Seq<char>) -> Option<Seq<char>> {
    if is_version(version) {
        Some(version_dir_of(root, version))
    } else {
        None
    }
}

/// The install target of `version` below `root`, where `version` is a
/// semantic version, and nothing where it is not.
pub open spec fn checked_install_target(root: Seq<char>, version: Seq<char>) -> Option<
    Seq<char>,
> {
    if is_version(version) {
        Some(install_target_of(root, version))
    } else {
        None
    }
}

/// The directory of the version `version` below the package root `root`.
pub(crate) fn version_path(root: &str, version: &str) -> (dir: String)
    requires
        is_version(version@),
    ensures
        dir@ == version_dir_of(root@, version@),
{
    let mut dir = String::from_str(root);
    dir.append("/");
    dir.append(version);
    dir
}

/// The install target of the version `version` below the package root
/// `root`.
pub(crate) fn target_path(root: &str, version: &str) -> (target: String)
    requires
        is_version(version@),
    ensures
        target@ == install_target_of(root@, version@),
{
    let mut target = version_path(root, version);
    target.append("/arthas");
    target
}

/// The directory of `version` below the package root `root`, if `version`
/// is a semantic version. A text that is none gives no path.
pub fn version_dir(root: &str, version: &str) -> (dir: Option<String>)
    ensures
        text_of(dir) == checked_version_dir(root@, version@),
{
    if is_semantic_version(version) {
        Some(version_path(root, version))
    } else {
        None
    }
}

/// The install target of `version` below the package root `root`, if
/// `version` is a semantic version. A text that is none gives no path.
pub fn install_target(root: &str, version: &str) -> (target: Option<String>)
    ensures
        text_of(target) == checked_install_target(root@, version@),
{
    if is_semantic_version(version) {
        Some(target_path(root, version))
    } else {
        None
    }
}

/// The package root, from what the environment gave: the value of the
/// overriding variable, if it is set, and the home directory, if there is one.
pub fn lib_dir_for(overriding: Option<String>, home: Option<String>) -> (dir: Option<String>)
    ensures
        text_of(dir) == lib_dir_of(text_of(overriding), text_of(home)),
{
    match overriding {
        Some(dir) => Some(dir),
        None => match home {
            Some(home) => {
                let mut dir = home;
                dir.append("/.arthas/lib");
                Some(dir)
            },
            None => None,
        },
    }
}

/// Calls `dirs::home_dir`, which asks the operating system for the user's
/// home directory, and hands the path on as text. Nothing is claimed of the
/// result: it depends on the environment in which the process runs. A home
/// directory whose path is not valid Unicode counts as none.
#[verifier::external_body]
fn home_directory() -> (home: Option<String>) {
    match dirs::home_dir() {
        Some(path) => path.into_os_string().into_string().ok(),
        None => None,
    }
}

/// The package root: the override, where the caller found one in the
/// environment, else `.arthas/lib` below the user's home directory. Without
/// an override the result depends on the home directory that the operating
/// system reports; `lib_dir_for` says what it is for each.
pub fn get_arthas_lib_dir(overriding: Option<String>) -> (dir: Option<String>)
    ensures
        overriding is Some ==> text_of(dir) == text_of(overriding),
        overriding is None ==> exists|home: Option<Seq<char>>|
            text_of(dir) == #[trigger] lib_dir_of(None, home),
{
    match overriding {
        Some(dir) => Some(dir),
        None => {
            let home = home_directory();
            let dir = lib_dir_for(None, home);
            assert(text_of(dir) == lib_dir_of(None, text_of(home)));
            dir
        },
    }
}

} // verus!
