//! The download descriptor: a URL template with a placeholder for the
//! version and one for the mirror, and how it is resolved.

use vstd::prelude::*;

verus! {

/// The text that results from replacing, left to right, every occurrence of
/// `token` in `text` by `value`. Occurrences do not overlap: once a token has
/// matched, scanning resumes behind it. An empty `token` matches nowhere.
pub open spec fn substituted(text: Seq<char>, token: Seq<char>, value: Seq<char>) -> Seq<char>
    decreases text.len(),
{
    if token.len() == 0 || text.len() < token.len() {
        text
    } else if token.is_prefix_of(text) {
        value + substituted(text.skip(token.len() as int), token, value)
    } else {
        seq![text[0]] + substituted(text.skip(1), token, value)
    }
}

/// `token` occurs in `text` at offset `at`.
pub open spec fn occurs_at(text: Seq<char>, token: Seq<char>, at: int) -> bool {
    &&& 0 <= at
    &&& at + token.len() <= text.len()
    &&& text.subrange(at, at + token.len()) == token
}

/// `token` occurs somewhere in `text`.
pub open spec fn occurs_in(text: Seq<char>, token: Seq<char>) -> bool {
    exists|at: int| occurs_at(text, token, at)
}

/// `value` can stand anywhere in a text without a part in an occurrence of
/// `pattern`: it is not empty, `pattern` does not occur in it, and neither
/// the character that it begins with nor the one that it ends with is a
/// character of `pattern`.
pub open spec fn keeps_clear_of(value: Seq<char>, pattern: Seq<char>) -> bool {
    &&& value.len() > 0
    &&& !pattern.contains(value.first())
    &&& !pattern.contains(value.last())
    &&& !occurs_in(value, pattern)
}

/// A capital letter of the Latin alphabet, or a low line: what placeholder
/// tokens are made of.
pub open spec fn is_token_char(c: char) -> bool {
    c == '_' || ('A' <= c && c <= 'Z')
}

/// The token of a download URL template that stands for the version.
pub open spec fn version_token() -> Seq<char> {
    "PLACEHOLDER_VERSION"@
}

/// The token of a download URL template that stands for the mirror.
pub open spec fn mirror_token() -> Seq<char> {
    "PLACEHOLDER_REPO"@
}

/// The template that package archives are downloaded from.
pub open spec fn default_template() -> Seq<char> {
    "https://arthas.aliyun.com/download/PLACEHOLDER_VERSION?mirror=PLACEHOLDER_REPO"@
}

/// The concrete URL of a template: first every mirror token is replaced by
/// `mirror`, then every version token of the outcome by `version`.
pub open spec fn resolved_url(template: Seq<char>, version: Seq<char>, mirror: Seq<char>) -> Seq<
    char,
> {
    substituted(substituted(template, mirror_token(), mirror), version_token(), version)
}

/// The URL of the archive of `version` on the default mirror, written out.
pub open spec fn package_url_of(version: Seq<char>) -> Seq<char> {
    "https://arthas.aliyun.com/download/"@ + version + "?mirror=aliyun"@
}

/// Tests whether `token` occurs in `text` at the character offset `at`.
fn matches_at(text: &str, token: &str, at: usize) -> (hit: bool)
    requires
        at + token@.len() <= text@.len(),
        text@.len() <= usize::MAX,
    ensures
        hit == occurs_at(text@, token@, at as int),
{
    let m: usize = token.unicode_len();
    let mut k: usize = 0;
    while k < m
        invariant
            k <= m,
            m == token@.len(),
            at + m <= text@.len(),
            text@.len() <= usize::MAX,
            forall|j: int| 0 <= j < k ==> text@[at + j] == token@[j],
        decreases m - k,
    {
        if text.get_char(at + k) != token.get_char(k) {
            assert(text@.subrange(at as int, at + m)[k as int] != token@[k as int]);
            return false;
        }
        k += 1;
    }
    assert(text@.subrange(at as int, at + m) =~= token@);
    true
}

/// Replaces every occurrence of `token` in `text` by `value`.
pub fn substitute(text: &str, token: &str, value: &str) -> (out: String)
    ensures
        out@ == substituted(text@, token@, value@),
{
    let n: usize = text.unicode_len();
    let m: usize = token.unicode_len();
    if m == 0 {
        return String::from_str(text);
    }
    let mut out = String::new();
    let mut i: usize = 0;
    proof {
        assert(text@.skip(0) =~= text@);
        assert(out@ + substituted(text@, token@, value@) =~= substituted(text@, token@, value@));
    }
    while i < n
        invariant
            i <= n,
            n == text@.len(),
            m == token@.len(),
            m > 0,
            out@ + substituted(text@.skip(i as int), token@, value@) == substituted(
                text@,
                token@,
                value@,
            ),
        decreases n - i,
    {
        let ghost rest = text@.skip(i as int);
        if m <= n - i && matches_at(text, token, i) {
            proof {
                assert(rest.subrange(0, m as int) =~= text@.subrange(i as int, i + m));
                assert(token@.is_prefix_of(rest));
                assert(rest.skip(m as int) =~= text@.skip(i + m));
                assert((out@ + value@) + substituted(text@.skip(i + m), token@, value@) =~= out@
                    + (value@ + substituted(text@.skip(i + m), token@, value@)));
            }
            out.append(value);
            i += m;
        } else {
            let piece = text.substring_char(i, i + 1);
            proof {
                if m <= n - i {
                    assert(rest.subrange(0, m as int) =~= text@.subrange(i as int, i + m));
                    assert(!token@.is_prefix_of(rest));
                }
                assert(piece@ =~= seq![rest[0]]);
                assert(rest.skip(1) =~= text@.skip(i + 1));
                assert((out@ + piece@) + substituted(text@.skip(i + 1), token@, value@) =~= out@
                    + (piece@ + substituted(text@.skip(i + 1), token@, value@)));
            }
            out.append(piece);
            i += 1;
        }
    }
    proof {
        assert(text@.skip(n as int) =~= Seq::<char>::empty());
        assert(out@ + Seq::<char>::empty() =~= out@);
    }
    out
}

/// The mirror identifier that download URLs are resolved against.
pub fn get_repo_url() -> (mirror: String)
    ensures
        mirror@ == "aliyun"@,
{
    String::from_str("aliyun")
}

/// Resolves a download URL template for one version and one mirror.
pub fn download_url(template: &str, version: &str, mirror: &str) -> (url: String)
    ensures
        url@ == resolved_url(template@, version@, mirror@),
{
    proof {
        lemma_tokens_are_not_empty();
    }
    let with_mirror = substitute(template, "PLACEHOLDER_REPO", mirror);
    substitute(with_mirror.as_str(), "PLACEHOLDER_VERSION", version)
}

/// The URL of the archive of `version`: the default template, resolved for
/// `version` and the default mirror.
pub fn package_url(version: &str) -> (url: String)
    ensures
        url@ == resolved_url(default_template(), version@, "aliyun"@),
        url@ == package_url_of(version@),
{
    proof {
        lemma_default_template_resolved(version@);
    }
    let mirror = get_repo_url();
    download_url(
        "https://arthas.aliyun.com/download/PLACEHOLDER_VERSION?mirror=PLACEHOLDER_REPO",
        version,
        mirror.as_str(),
    )
}

/// How long the two placeholder tokens are.
pub proof fn lemma_tokens_are_not_empty()
    ensures
        version_token().len() == 19,
        mirror_token().len() == 16,
{
    reveal_strlit("PLACEHOLDER_VERSION");
    reveal_strlit("PLACEHOLDER_REPO");
}

/// A resolved download URL holds no placeholder token any more, whatever the
/// template, for a version and a mirror that keep clear of the tokens which
/// could form in or around them: the mirror of the mirror token, the version
/// of both tokens.
pub proof fn lemma_resolved_url_has_no_placeholder(
    template: Seq<char>,
    version: Seq<char>,
    mirror: Seq<char>,
)
    requires
        keeps_clear_of(mirror, mirror_token()),
        keeps_clear_of(version, mirror_token()),
        keeps_clear_of(version, version_token()),
    ensures
        !occurs_in(resolved_url(template, version, mirror), version_token()),
        !occurs_in(resolved_url(template, version, mirror), mirror_token()),
{
    lemma_tokens_are_not_empty();
    let with_mirror = substituted(template, mirror_token(), mirror);
    let url = resolved_url(template, version, mirror);
    assert forall|at: int| !occurs_at(with_mirror, mirror_token(), at) by {
        lemma_substituted_has_no_occurrence(template, mirror_token(), mirror, mirror_token(), at);
    }
    assert forall|at: int| !occurs_at(url, version_token(), at) by {
        lemma_substituted_has_no_occurrence(
            with_mirror,
            version_token(),
            version,
            version_token(),
            at,
        );
    }
    assert forall|at: int| !occurs_at(url, mirror_token(), at) by {
        lemma_substituted_has_no_occurrence(
            with_mirror,
            version_token(),
            version,
            mirror_token(),
            at,
        );
    }
}

/// Substituting a value for a token leaves no occurrence of a pattern that
/// the value keeps clear of, if the pattern is the token itself or did not
/// occur in the text before.
pub proof fn lemma_substituted_has_no_occurrence(
    text: Seq<char>,
    token: Seq<char>,
    value: Seq<char>,
    pattern: Seq<char>,
    at: int,
)
    requires
        token.len() > 0,
        pattern.len() > 0,
        keeps_clear_of(value, pattern),
        pattern == token || !occurs_in(text, pattern),
    ensures
        !occurs_at(substituted(text, token, value), pattern, at),
    decreases text.len(),
{
    let out = substituted(text, token, value);
    if occurs_at(out, pattern, at) {
        let found = out.subrange(at, at + pattern.len());
        assert(found[0] == pattern[0]);
        if text.len() < token.len() {
            assert(occurs_at(text, pattern, at));
        } else if token.is_prefix_of(text) {
            let tail = text.skip(token.len() as int);
            let rest = substituted(tail, token, value);
            if at == 0 {
                assert(pattern[0] == value.first());
            } else if at + pattern.len() <= value.len() {
                assert(value.subrange(at, at + pattern.len()) =~= found);
                assert(occurs_at(value, pattern, at));
            } else if at < value.len() {
                assert(found[value.len() - 1 - at] == value.last());
                assert(pattern[value.len() - 1 - at] == value.last());
            } else {
                assert(rest.subrange(at - value.len(), at - value.len() + pattern.len()) =~= found);
                lemma_skip_keeps_absence(text, pattern, token.len() as int);
                lemma_substituted_has_no_occurrence(tail, token, value, pattern, at - value.len());
            }
        } else {
            let tail = text.skip(1);
            let rest = substituted(tail, token, value);
            if at == 0 {
                assert(found =~= pattern);
                assert(pattern.is_prefix_of(out));
                lemma_prefix_was_copied(text, token, value, pattern);
                assert(text.subrange(0, pattern.len() as int) =~= pattern);
                assert(occurs_at(text, pattern, 0));
            } else {
                assert(rest.subrange(at - 1, at - 1 + pattern.len()) =~= found);
                lemma_skip_keeps_absence(text, pattern, 1);
                lemma_substituted_has_no_occurrence(tail, token, value, pattern, at - 1);
            }
        }
    }
}

/// A pattern that opens the substituted text stood at the opening of the
/// text before, if the inserted value begins with a character that the
/// pattern does not have.
proof fn lemma_prefix_was_copied(
    text: Seq<char>,
    token: Seq<char>,
    value: Seq<char>,
    pattern: Seq<char>,
)
    requires
        token.len() > 0,
        value.len() > 0,
        !pattern.contains(value.first()),
        pattern.is_prefix_of(substituted(text, token, value)),
    ensures
        pattern.is_prefix_of(text),
    decreases pattern.len(),
{
    let out = substituted(text, token, value);
    if pattern.len() == 0 {
    } else if text.len() < token.len() {
    } else if token.is_prefix_of(text) {
        assert(out[0] == value[0]);
        assert(pattern[0] == out[0]);
    } else {
        let rest = substituted(text.skip(1), token, value);
        assert(out == seq![text[0]] + rest);
        assert(pattern[0] == out[0]);
        assert(pattern.skip(1).is_prefix_of(rest)) by {
            assert forall|k: int| 0 <= k < pattern.len() - 1 implies pattern.skip(1)[k]
                == rest[k] by {
                assert(pattern[k + 1] == out[k + 1]);
            }
        }
        assert(!pattern.skip(1).contains(value.first())) by {
            if pattern.skip(1).contains(value.first()) {
                let k = choose|k: int|
                    0 <= k < pattern.skip(1).len() && pattern.skip(1)[k] == value.first();
                assert(pattern[k + 1] == value.first());
            }
        }
        lemma_prefix_was_copied(text.skip(1), token, value, pattern.skip(1));
        assert forall|k: int| 0 <= k < pattern.len() implies pattern[k] == text[k] by {
            if k > 0 {
                assert(pattern.skip(1)[k - 1] == text.skip(1)[k - 1]);
            }
        }
    }
}

/// A pattern that does not occur in a text does not occur behind its first
/// `n` characters either.
proof fn lemma_skip_keeps_absence(text: Seq<char>, pattern: Seq<char>, n: int)
    requires
        0 <= n <= text.len(),
    ensures
        !occurs_in(text, pattern) ==> !occurs_in(text.skip(n), pattern),
{
    if occurs_in(text.skip(n), pattern) {
        let at = choose|at: int| occurs_at(text.skip(n), pattern, at);
        assert(text.subrange(at + n, at + n + pattern.len()) =~= text.skip(n).subrange(
            at,
            at + pattern.len(),
        ));
        assert(occurs_at(text, pattern, at + n));
    }
}

/// The default template, resolved for a version and the default mirror, is
/// the address of the download service, the version and the mirror.
pub proof fn lemma_default_template_resolved(version: Seq<char>)
    ensures
        resolved_url(default_template(), version, "aliyun"@) == package_url_of(version),
{
    reveal_strlit("https://arthas.aliyun.com/download/PLACEHOLDER_VERSION?mirror=PLACEHOLDER_REPO");
    reveal_strlit("https://arthas.aliyun.com/download/");
    reveal_strlit("PLACEHOLDER_VERSION");
    reveal_strlit("PLACEHOLDER_REPO");
    reveal_strlit("?mirror=aliyun");
    reveal_strlit("aliyun");
    let template = default_template();
    let service = "https://arthas.aliyun.com/download/"@;
    let mirror = "aliyun"@;
    let ending = "?mirror=aliyun"@;

    // The mirror token stands at the end of the template, and nowhere else.
    assert forall|at: int| 0 <= at < 62 implies !occurs_at(template, mirror_token(), at) by {
        if occurs_at(template, mirror_token(), at) {
            let found = template.subrange(at, at + 16);
            assert(found[0] == 'P');
            assert(found[12] == 'R');
        }
    }
    lemma_substituted_keeps_clear_prefix(template, mirror_token(), mirror, 62);
    assert(template.skip(62) =~= mirror_token());
    assert(mirror_token().is_prefix_of(mirror_token()));
    assert(mirror_token().skip(16) =~= Seq::<char>::empty());
    assert(substituted(Seq::<char>::empty(), mirror_token(), mirror) =~= Seq::<char>::empty());
    assert(substituted(mirror_token(), mirror_token(), mirror) =~= mirror);
    let with_mirror = substituted(template, mirror_token(), mirror);
    assert(with_mirror =~= service + version_token() + ending);

    // The version token stands behind the address of the service.
    assert forall|at: int| 0 <= at < 35 implies !occurs_at(with_mirror, version_token(), at) by {
        if occurs_at(with_mirror, version_token(), at) {
            let found = with_mirror.subrange(at, at + 19);
            assert(found[0] == 'P');
        }
    }
    lemma_substituted_keeps_clear_prefix(with_mirror, version_token(), version, 35);
    assert(with_mirror.take(35) =~= service);
    let tail = with_mirror.skip(35);
    assert(tail =~= version_token() + ending);
    assert(version_token().is_prefix_of(tail));
    assert(tail.skip(19) =~= ending);
    assert forall|at: int| 0 <= at < 14 implies !occurs_at(ending, version_token(), at) by {
        if occurs_at(ending, version_token(), at) {
            let found = ending.subrange(at, at + 19);
            assert(found[0] == 'P');
        }
    }
    lemma_substituted_keeps_clear_prefix(ending, version_token(), version, 14);
    assert(ending.skip(14) =~= Seq::<char>::empty());
    assert(ending.take(14) =~= ending);
    assert(substituted(ending, version_token(), version) =~= ending);
    assert(substituted(tail, version_token(), version) =~= version + ending);
    assert(service + (version + ending) =~= service + version + ending);
}

/// Where a token occurs nowhere before offset `n`, substituting for it
/// leaves the first `n` characters as they are.
proof fn lemma_substituted_keeps_clear_prefix(
    text: Seq<char>,
    token: Seq<char>,
    value: Seq<char>,
    n: int,
)
    requires
        token.len() > 0,
        0 <= n <= text.len(),
        forall|at: int| 0 <= at < n ==> !occurs_at(text, token, at),
    ensures
        substituted(text, token, value) == text.take(n) + substituted(text.skip(n), token, value),
    decreases n,
{
    if n == 0 {
        assert(text.skip(0) =~= text);
        assert(text.take(0) + substituted(text, token, value) =~= substituted(text, token, value));
    } else if text.len() < token.len() {
        assert(text.take(n) + text.skip(n) =~= text);
    } else {
        assert(!occurs_at(text, token, 0));
        assert(text.subrange(0, token.len() as int) =~= text.take(token.len() as int));
        let tail = text.skip(1);
        assert forall|at: int| 0 <= at < n - 1 implies !occurs_at(tail, token, at) by {
            if occurs_at(tail, token, at) {
                assert(tail.subrange(at, at + token.len()) =~= text.subrange(
                    at + 1,
                    at + 1 + token.len(),
                ));
                assert(occurs_at(text, token, at + 1));
            }
        }
        lemma_substituted_keeps_clear_prefix(tail, token, value, n - 1);
        assert(tail.skip(n - 1) =~= text.skip(n));
        assert(seq![text[0]] + (tail.take(n - 1) + substituted(text.skip(n), token, value))
            =~= text.take(n) + substituted(text.skip(n), token, value));
    }
}

/// The package URL of a version holds a placeholder token if and only if the
/// version itself holds it: nothing of a token is left of the template, and
/// none forms where the version meets what stands around it.
pub proof fn lemma_package_url_has_the_placeholders_of_the_version(version: Seq<char>)
    ensures
        occurs_in(package_url_of(version), version_token()) <==> occurs_in(
            version,
            version_token(),
        ),
        occurs_in(package_url_of(version), mirror_token()) <==> occurs_in(version, mirror_token()),
{
    reveal_strlit("PLACEHOLDER_VERSION");
    reveal_strlit("PLACEHOLDER_REPO");
    lemma_only_the_version_holds_capitals(version, version_token());
    lemma_only_the_version_holds_capitals(version, mirror_token());
}

/// A pattern of token characters occurs in the package URL of a version just
/// where it occurs in the version.
proof fn lemma_only_the_version_holds_capitals(version: Seq<char>, pattern: Seq<char>)
    requires
        pattern.len() > 0,
        forall|i: int| 0 <= i < pattern.len() ==> is_token_char(#[trigger] pattern[i]),
    ensures
        occurs_in(package_url_of(version), pattern) <==> occurs_in(version, pattern),
{
    reveal_strlit("https://arthas.aliyun.com/download/");
    reveal_strlit("?mirror=aliyun");
    let service = "https://arthas.aliyun.com/download/"@;
    let ending = "?mirror=aliyun"@;
    let url = package_url_of(version);
    assert forall|i: int| 0 <= i < 35 implies !is_token_char(#[trigger] service[i]) by {}
    assert forall|i: int| 0 <= i < 14 implies !is_token_char(#[trigger] ending[i]) by {}
    if occurs_in(version, pattern) {
        let at = choose|at: int| occurs_at(version, pattern, at);
        assert(url.subrange(at + 35, at + 35 + pattern.len()) =~= version.subrange(
            at,
            at + pattern.len(),
        ));
        assert(occurs_at(url, pattern, at + 35));
    }
    if occurs_in(url, pattern) {
        let at = choose|at: int| occurs_at(url, pattern, at);
        let found = url.subrange(at, at + pattern.len());
        let last = pattern.len() - 1;
        assert(found[0] == pattern[0] && found[last] == pattern[last]);
        assert(is_token_char(url[at]) && is_token_char(url[at + last]));
        if at < 35 {
            assert(url[at] == service[at]);
        }
        if at + last >= 35 + version.len() {
            assert(url[at + last] == ending[at + last - 35 - version.len()]);
        }
        assert(version.subrange(at - 35, at - 35 + pattern.len()) =~= found);
        assert(occurs_at(version, pattern, at - 35));
    }
}

} // verus!
