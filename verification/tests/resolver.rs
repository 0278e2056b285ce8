use arthas_launcher::resolver::{get_local_version, parse_versions, ResolveError};
use arthas_launcher::version::{highest_version, is_semantic_version};

fn names(entries: &[&str]) -> Vec<String> {
    entries.iter().map(|entry| entry.to_string()).collect()
}

#[test]
fn a_single_version_is_the_highest() {
    assert_eq!(get_local_version(&names(&["3.7.2"])), Ok("3.7.2".to_string()));
}

#[test]
fn the_highest_version_wins_whatever_the_order() {
    let expected = Ok("3.10.0".to_string());
    assert_eq!(get_local_version(&names(&["3.7.2", "3.10.0", "3.9.1"])), expected);
    assert_eq!(get_local_version(&names(&["3.10.0", "3.9.1", "3.7.2"])), expected);
    assert_eq!(get_local_version(&names(&["3.9.1", "3.7.2", "3.10.0"])), expected);
    assert_eq!(get_local_version(&names(&["3.7.2", "3.9.1", "3.10.0"])), expected);
    assert_eq!(get_local_version(&names(&["3.10.0", "3.7.2", "3.9.1"])), expected);
    assert_eq!(get_local_version(&names(&["3.9.1", "3.10.0", "3.7.2"])), expected);
}

#[test]
fn numbers_are_compared_as_numbers() {
    assert_eq!(
        get_local_version(&names(&["1.19.0", "1.5.0"])),
        Ok("1.19.0".to_string())
    );
    assert_eq!(
        get_local_version(&names(&["9.0.0", "10.0.0", "2.99.99"])),
        Ok("10.0.0".to_string())
    );
}

#[test]
fn a_release_comes_after_its_pre_releases() {
    assert_eq!(
        get_local_version(&names(&["1.0.0", "1.0.0-rc.1", "1.0.0-alpha"])),
        Ok("1.0.0".to_string())
    );
    assert_eq!(
        get_local_version(&names(&["1.0.0-beta.11", "1.0.0-beta.2", "1.0.0-alpha.beta"])),
        Ok("1.0.0-beta.11".to_string())
    );
}

#[test]
fn build_metadata_is_written_out_again() {
    assert_eq!(
        get_local_version(&names(&["1.2.3+build.5", "1.2.2"])),
        Ok("1.2.3+build.5".to_string())
    );
}

#[test]
fn a_version_listed_twice_is_no_trouble() {
    assert_eq!(
        get_local_version(&names(&["3.7.2", "3.7.2", "3.7.1"])),
        Ok("3.7.2".to_string())
    );
}

#[test]
fn an_entry_that_is_no_version_fails_the_resolution() {
    assert_eq!(
        get_local_version(&names(&["3.7.2", "latest", "3.9.1"])),
        Err(ResolveError::NotAVersion { index: 1 })
    );
    assert_eq!(
        get_local_version(&names(&[".DS_Store", "3.7.2"])),
        Err(ResolveError::NotAVersion { index: 0 })
    );
}

#[test]
fn a_bad_entry_is_not_skipped_even_behind_the_highest() {
    assert_eq!(
        get_local_version(&names(&["9.9.9", "1.0"])),
        Err(ResolveError::NotAVersion { index: 1 })
    );
}

#[test]
fn the_first_bad_entry_is_reported() {
    assert_eq!(
        get_local_version(&names(&["1.0.0", "01.0.0", "v1.0.0", "1.0.0 "])),
        Err(ResolveError::NotAVersion { index: 1 })
    );
}

#[test]
fn what_semver_rejects_is_no_version() {
    let rejected = [
        "", "1", "1.0", "1.0.0.0", "v1.0.0", " 1.0.0", "1.0.0-", "1.0.0+", "1.0.01", "a.b.c",
    ];
    for bad in rejected {
        assert_eq!(
            get_local_version(&names(&[bad])),
            Err(ResolveError::NotAVersion { index: 0 }),
            "{bad:?}"
        );
    }
}

#[test]
fn an_empty_package_root_has_no_version() {
    assert_eq!(get_local_version(&Vec::new()), Err(ResolveError::NoVersions));
}

#[test]
fn parse_versions_keeps_the_order_of_the_entries() {
    let parsed = parse_versions(&names(&["3.7.2", "1.0.0-rc.1", "2.0.0+x"])).unwrap();
    assert_eq!(
        parsed,
        vec![
            semver::Version::parse("3.7.2").unwrap(),
            semver::Version::parse("1.0.0-rc.1").unwrap(),
            semver::Version::parse("2.0.0+x").unwrap(),
        ]
    );
}

#[test]
fn parse_versions_stops_at_the_first_bad_entry() {
    assert_eq!(
        parse_versions(&names(&["3.7.2", "x", "y"])).unwrap_err(),
        ResolveError::NotAVersion { index: 1 }
    );
    assert_eq!(parse_versions(&Vec::new()).unwrap(), Vec::new());
}

#[test]
fn highest_version_of_none_is_none() {
    assert_eq!(highest_version(Vec::new()), None);
}

#[test]
fn highest_version_is_the_maximum() {
    let versions = vec![
        semver::Version::new(1, 2, 3),
        semver::Version::new(1, 10, 0),
        semver::Version::new(0, 99, 99),
        semver::Version::new(1, 9, 9),
    ];
    assert_eq!(highest_version(versions.clone()), versions.iter().max().cloned());
    assert_eq!(highest_version(versions), Some(semver::Version::new(1, 10, 0)));
}

#[test]
fn highest_version_does_not_depend_on_the_order() {
    let texts = ["1.0.0-alpha", "1.0.0-alpha.1", "1.0.0-beta", "1.0.0", "0.9.0+z"];
    let mut versions: Vec<semver::Version> =
        texts.iter().map(|text| semver::Version::parse(text).unwrap()).collect();
    for _ in 0..versions.len() {
        versions.rotate_left(1);
        assert_eq!(highest_version(versions.clone()), Some(semver::Version::new(1, 0, 0)));
        let mut reversed = versions.clone();
        reversed.reverse();
        assert_eq!(highest_version(reversed), Some(semver::Version::new(1, 0, 0)));
    }
}

#[test]
fn the_result_is_one_of_the_entries() {
    let entries = names(&["1.0.0-rc.1+b", "0.9.0", "1.0.0-rc.1"]);
    let local = get_local_version(&entries).unwrap();
    assert!(entries.contains(&local));
    assert_eq!(local, "1.0.0-rc.1+b");
}

#[test]
fn a_version_is_written_as_it_was_parsed() {
    for text in ["0.0.0", "3.7.2", "10.20.30-alpha.1", "1.2.3+build", "1.0.0-a-b.0+001"] {
        assert_eq!(semver::Version::parse(text).unwrap().to_string(), text);
        assert_eq!(get_local_version(&names(&[text])), Ok(text.to_string()));
    }
}

#[test]
fn is_semantic_version_is_what_semver_parses() {
    for text in ["0.0.0", "3.7.2", "1.0.0-rc.1", "1.0.0+build.5", "1.0.0-RC1"] {
        assert!(is_semantic_version(text), "{text:?}");
    }
    for text in ["", "latest", "3.7", "../x", "/etc", "3.7.2\n", "01.0.0", "1.0.0-", "1.0.0_1"] {
        assert!(!is_semantic_version(text), "{text:?}");
    }
}
