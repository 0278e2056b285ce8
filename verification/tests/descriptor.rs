use arthas_launcher::descriptor::{download_url, get_repo_url, package_url, substitute};

const TEMPLATE: &str =
    "https://arthas.aliyun.com/download/PLACEHOLDER_VERSION?mirror=PLACEHOLDER_REPO";

#[test]
fn repo_url_is_the_default_mirror() {
    assert_eq!(get_repo_url(), "aliyun");
}

#[test]
fn package_url_of_a_release() {
    assert_eq!(
        package_url("3.7.2"),
        "https://arthas.aliyun.com/download/3.7.2?mirror=aliyun"
    );
}

#[test]
fn package_url_is_the_default_template_on_the_default_mirror() {
    assert_eq!(
        package_url("4.0.0-rc.1"),
        download_url(TEMPLATE, "4.0.0-rc.1", &get_repo_url())
    );
}

#[test]
fn download_url_replaces_every_token() {
    assert_eq!(
        download_url(
            "PLACEHOLDER_REPO/PLACEHOLDER_VERSION/PLACEHOLDER_REPO",
            "1.0.0",
            "m"
        ),
        "m/1.0.0/m"
    );
}

#[test]
fn download_url_leaves_no_placeholder() {
    let url = download_url(TEMPLATE, "3.7.2", "aliyun");
    assert!(!url.contains("PLACEHOLDER_VERSION"));
    assert!(!url.contains("PLACEHOLDER_REPO"));
    assert!(!url.contains("PLACEHOLDER"));
}

#[test]
fn download_url_without_tokens_is_the_template() {
    assert_eq!(
        download_url("https://example.org/a.zip", "1.2.3", "m"),
        "https://example.org/a.zip"
    );
}

#[test]
fn download_url_puts_the_mirror_in_before_the_version() {
    // A mirror that holds the version token is resolved with the version.
    assert_eq!(
        download_url("PLACEHOLDER_REPO", "1.2.3", "x-PLACEHOLDER_VERSION"),
        "x-1.2.3"
    );
    // A version that holds the mirror token comes too late for the mirror.
    assert_eq!(
        download_url("PLACEHOLDER_VERSION", "PLACEHOLDER_REPO", "m"),
        "PLACEHOLDER_REPO"
    );
}

#[test]
fn a_version_made_of_a_token_leaves_a_token() {
    let url = download_url(TEMPLATE, "PLACEHOLDER_REPO", "aliyun");
    assert_eq!(
        url,
        "https://arthas.aliyun.com/download/PLACEHOLDER_REPO?mirror=aliyun"
    );
}

#[test]
fn an_empty_version_can_join_a_token_together() {
    assert_eq!(
        download_url("PLACEHOLDER_REPLACEHOLDER_VERSIONPO", "", "m"),
        "PLACEHOLDER_REPO"
    );
}

#[test]
fn substitute_goes_from_left_to_right_without_overlap() {
    assert_eq!(substitute("aaaa", "aa", "b"), "bb");
    assert_eq!(substitute("aaa", "aa", "b"), "ba");
    assert_eq!(substitute("abab", "aba", "x"), "xb");
}

#[test]
fn substitute_does_not_scan_what_it_put_in() {
    assert_eq!(substitute("ab", "a", "aa"), "aab");
    assert_eq!(substitute("xay", "a", "a"), "xay");
}

#[test]
fn substitute_at_both_ends() {
    assert_eq!(substitute("tok-mid-tok", "tok", "V"), "V-mid-V");
    assert_eq!(substitute("tok", "tok", ""), "");
    assert_eq!(substitute("", "tok", "V"), "");
    assert_eq!(substitute("to", "tok", "V"), "to");
}

#[test]
fn substitute_agrees_with_str_replace() {
    let cases = [
        ("PLACEHOLDER_VERSION", "PLACEHOLDER_VERSION", "3.7.2"),
        ("a.PLACEHOLDER_REPO.b", "PLACEHOLDER_REPO", "aliyun"),
        ("PLACEHOLDER_PLACEHOLDER_REPO", "PLACEHOLDER_REPO", "m"),
        ("ääb€ääb", "äb", "ü"),
        ("no token here", "PLACEHOLDER_REPO", "m"),
    ];
    for (text, token, value) in cases {
        assert_eq!(substitute(text, token, value), text.replace(token, value));
    }
}

#[test]
fn substitute_with_an_empty_token_changes_nothing() {
    assert_eq!(substitute("abc", "", "x"), "abc");
}

#[test]
fn a_version_with_capitals_leaves_no_placeholder() {
    let url = download_url(TEMPLATE, "1.0.0-RC1", "aliyun");
    assert_eq!(url, "https://arthas.aliyun.com/download/1.0.0-RC1?mirror=aliyun");
    let odd = download_url("PLACEHOLDER_PLACEHOLDER_VERSION_REPO", "1.0.0-RC1", "m");
    assert!(!odd.contains("PLACEHOLDER_VERSION") && !odd.contains("PLACEHOLDER_REPO"));
}
