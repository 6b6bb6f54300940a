//! Deciding whether a newer release exists: everything but the network call.
//!
//! This only ever finds out that a release exists; fetching it stays a
//! deliberate act, on a page the user can look at first.
use crate::numbers::{parse_u64, parsed_u64};
use crate::strings::{
    chars_of, chars_end_with, chars_start_with, ends_with, first_index_of, index_of_char, lemma_first_index_from, push_str, slice_chars, split_chars, split_pieces, starts_with, string_from, to_owned_string, trim, trim_chars,
};
use std::cmp::Ordering;
use vstd::prelude::*;

verus! {

/// A published release worth telling the user about.
#[derive(Debug, Clone, PartialEq, Eq)]
pub struct Release {
    /// The tag as published, `v` prefix and all: this is display text.
    pub tag: String,
    /// The version with any `v` stripped, for comparing.
    pub version: String,
    /// The human page, not the asset: the user decides what to download.
    pub page_url: String,
}

// MARK: - The endpoint

/// `s` with every trailing `c` removed.
pub open spec fn without_trailing(s: Seq<char>, c: char) -> Seq<char>
    decreases s.len(),
{
    if s.len() > 0 && s.last() == c {
        without_trailing(s.drop_last(), c)
    } else {
        s
    }
}

/// The `owner/repo` part of a GitHub repository URL, `.git` dropped.
pub open spec fn repository_path(repository: Seq<char>) -> Option<Seq<char>> {
    let trimmed = without_trailing(trim(repository), '/');
    let path = if starts_with(trimmed, "https://github.com/"@) {
        Some(trimmed.skip("https://github.com/"@.len() as int))
    } else if starts_with(trimmed, "http://github.com/"@) {
        Some(trimmed.skip("http://github.com/"@.len() as int))
    } else {
        None
    };
    match path {
        None => None,
        Some(p) => Some(
            if ends_with(p, ".git"@) {
                p.take(p.len() - ".git"@.len())
            } else {
                p
            },
        ),
    }
}

/// The API endpoint for a repository's newest release: a GitHub URL with an
/// owner and a repository name and nothing after them, or no endpoint at all.
pub open spec fn latest_release_url_of(repository: Seq<char>) -> Option<Seq<char>> {
    match repository_path(repository) {
        None => None,
        Some(path) => match first_index_of(path, '/') {
            None => None,
            Some(k) => {
                let owner = path.take(k);
                let repo = path.skip(k + 1);
                if owner.len() == 0 || repo.len() == 0 || first_index_of(repo, '/') is Some {
                    None
                } else {
                    Some("https://api.github.com/repos/"@ + owner + "/"@ + repo + "/releases/latest"@)
                }
            },
        },
    }
}

/// The API endpoint for a repository's newest release, derived from the
/// repository URL so that a fork or a rename does not leave it pointing at
/// the repository it came from.
pub fn latest_release_url(repository: &str) -> (r: Option<String>)
    ensures
        match r {
            Some(url) => latest_release_url_of(repository@) == Some(url@),
            None => latest_release_url_of(repository@) is None,
        },
{
    let chars = chars_of(repository);
    let mut trimmed = trim_chars(chars.as_slice());
    while trimmed.len() > 0 && trimmed[trimmed.len() - 1] == '/'
        invariant
            without_trailing(trimmed@, '/') == without_trailing(trim(repository@), '/'),
        decreases trimmed@.len(),
    {
        let ghost before = trimmed@;
        trimmed.pop();
        proof {
            assert(trimmed@ =~= before.drop_last());
        }
    }
    let https = chars_of("https://github.com/");
    let http = chars_of("http://github.com/");
    let mut path = if chars_start_with(trimmed.as_slice(), https.as_slice()) {
        slice_chars(trimmed.as_slice(), https.len(), trimmed.len())
    } else if chars_start_with(trimmed.as_slice(), http.as_slice()) {
        slice_chars(trimmed.as_slice(), http.len(), trimmed.len())
    } else {
        return None;
    };
    let git = chars_of(".git");
    if chars_end_with(path.as_slice(), git.as_slice()) {
        path = slice_chars(path.as_slice(), 0, path.len() - git.len());
    }
    proof {
        assert(repository_path(repository@) == Some(path@));
    }
    let k = match index_of_char(path.as_slice(), '/') {
        None => return None,
        Some(k) => k,
    };
    proof {
        lemma_first_index_from(path@, '/', 0);
    }
    let owner = slice_chars(path.as_slice(), 0, k);
    let repo = slice_chars(path.as_slice(), k + 1, path.len());
    proof {
        assert(owner@ =~= path@.take(k as int));
        assert(repo@ =~= path@.skip(k + 1));
    }
    if owner.len() == 0 || repo.len() == 0 || index_of_char(repo.as_slice(), '/').is_some() {
        return None;
    }
    let mut url = to_owned_string("https://api.github.com/repos/");
    let owner_string = string_from(owner.as_slice());
    let repo_string = string_from(repo.as_slice());
    push_str(&mut url, owner_string.as_str());
    push_str(&mut url, "/");
    push_str(&mut url, repo_string.as_str());
    push_str(&mut url, "/releases/latest");
    Some(url)
}

// MARK: - The release

/// Only a page on GitHub is ever handed to the shell.
pub open spec fn is_github_url_of(url: Seq<char>) -> bool {
    starts_with(url, "https://github.com/"@)
}

pub fn is_github_url(url: &str) -> (r: bool)
    ensures
        r == is_github_url_of(url@),
{
    let chars = chars_of(url);
    let prefix = chars_of("https://github.com/");
    chars_start_with(chars.as_slice(), prefix.as_slice())
}

/// What a release is read as, when it is one worth offering: not a draft, not
/// a pre-release, with a tag that leaves a version behind its `v`, and with a
/// page on GitHub.
pub open spec fn release_of(tag_name: Option<Seq<char>>, html_url: Option<Seq<char>>, draft: bool, prerelease: bool) -> Option<
    (Seq<char>, Seq<char>, Seq<char>),
> {
    if draft || prerelease {
        None
    } else {
        match (tag_name, html_url) {
            (Some(tag), Some(page)) => if is_github_url_of(page) && stripped_v(tag).len() > 0 {
                Some((tag, stripped_v(tag), page))
            } else {
                None
            },
            _ => None,
        }
    }
}

pub open spec fn str_view(o: Option<&str>) -> Option<Seq<char>> {
    match o {
        Some(s) => Some(s@),
        None => None,
    }
}

/// The release in a `releases/latest` response, from the fields the response
/// carries, or `None` when there isn't one worth offering.
///
/// GitHub already excludes drafts and pre-releases from that endpoint, but the
/// flags are checked anyway: without them the failure mode is pushing users at
/// a half-finished build.
pub fn release_from(tag_name: Option<&str>, html_url: Option<&str>, draft: bool, prerelease: bool) -> (r: Option<Release>)
    ensures
        match r {
            Some(release) => release_of(str_view(tag_name), str_view(html_url), draft, prerelease)
                == Some((release.tag@, release.version@, release.page_url@)),
            None => release_of(str_view(tag_name), str_view(html_url), draft, prerelease) is None,
        },
{
    if draft || prerelease {
        return None;
    }
    let tag = match tag_name {
        Some(tag) => tag,
        None => return None,
    };
    let page = match html_url {
        Some(page) => page,
        None => return None,
    };
    if !is_github_url(page) {
        return None;
    }
    let tag_chars = chars_of(tag);
    let version = strip_v(tag_chars.as_slice());
    if version.len() == 0 {
        return None;
    }
    Some(Release {
        tag: to_owned_string(tag),
        version: string_from(version.as_slice()),
        page_url: to_owned_string(page),
    })
}

// MARK: - Comparing versions

/// The version trimmed, less one leading `v` or `V`.
pub open spec fn stripped_v(version: Seq<char>) -> Seq<char> {
    let t = trim(version);
    if t.len() > 0 && (t[0] == 'v' || t[0] == 'V') {
        t.drop_first()
    } else {
        t
    }
}

fn strip_v(version: &[char]) -> (r: Vec<char>)
    ensures
        r@ == stripped_v(version@),
{
    let t = trim_chars(version);
    if t.len() > 0 && (t[0] == 'v' || t[0] == 'V') {
        let r = slice_chars(t.as_slice(), 1, t.len());
        proof {
            assert(r@ =~= t@.drop_first());
        }
        r
    } else {
        t
    }
}

/// The version before any build metadata (`+…`), which is no precedence signal.
pub open spec fn without_build(version: Seq<char>) -> Seq<char> {
    match first_index_of(version, '+') {
        Some(k) => version.take(k),
        None => version,
    }
}

/// The `MAJOR.MINOR.PATCH` core, and whether a pre-release (`-…`) follows it.
pub open spec fn core_of(version: Seq<char>) -> (Seq<char>, bool) {
    let v = without_build(version);
    match first_index_of(v, '-') {
        Some(k) => (v.take(k), true),
        None => (v, false),
    }
}

fn split_pre_release(version: &[char]) -> (r: (Vec<char>, bool))
    ensures
        (r.0@, r.1) == core_of(version@),
{
    proof {
        lemma_first_index_from(version@, '+', 0);
    }
    let v = match index_of_char(version, '+') {
        Some(k) => slice_chars(version, 0, k),
        None => slice_chars(version, 0, version.len()),
    };
    proof {
        assert(v@ =~= without_build(version@));
        lemma_first_index_from(v@, '-', 0);
    }
    match index_of_char(v.as_slice(), '-') {
        Some(k) => {
            let core = slice_chars(v.as_slice(), 0, k);
            proof {
                assert(core@ =~= v@.take(k as int));
            }
            (core, true)
        },
        None => (v, false),
    }
}

/// A component that is not a plain number counts as zero rather than poisoning
/// the whole comparison: an unparseable tag should read as "not newer", never
/// as "newer".
pub open spec fn numeric_of(part: Seq<char>) -> u64 {
    match parsed_u64(trim(part)) {
        Some(n) => n,
        None => 0,
    }
}

/// Component `i` of a version core; a missing one counts as zero, so `1.2`
/// and `1.2.0` are equal.
pub open spec fn component(core: Seq<char>, i: int) -> u64 {
    let parts = split_pieces(core, '.');
    if i < parts.len() {
        numeric_of(parts[i])
    } else {
        0
    }
}

/// What a version is ordered by: its three components, then whether it is a
/// release rather than a pre-release.
pub open spec fn version_key(version: Seq<char>) -> (u64, u64, u64, bool) {
    let (core, pre) = core_of(stripped_v(version));
    (component(core, 0), component(core, 1), component(core, 2), !pre)
}

/// `-1`, `0` or `1` as `x` is below, level with or above `y`.
pub open spec fn sign_of(x: int, y: int) -> int {
    if x < y {
        -1
    } else if x > y {
        1
    } else {
        0
    }
}

/// The two keys compared field by field, the first difference deciding; a
/// release sorts above a pre-release of the same core, as semver says it should.
pub open spec fn key_order(a: (u64, u64, u64, bool), b: (u64, u64, u64, bool)) -> int {
    if a.0 != b.0 {
        sign_of(a.0 as int, b.0 as int)
    } else if a.1 != b.1 {
        sign_of(a.1 as int, b.1 as int)
    } else if a.2 != b.2 {
        sign_of(a.2 as int, b.2 as int)
    } else if a.3 == b.3 {
        0
    } else if a.3 {
        1
    } else {
        -1
    }
}

/// How version `a` sorts against version `b`: `-1`, `0` or `1`.
pub open spec fn version_order(a: Seq<char>, b: Seq<char>) -> int {
    key_order(version_key(a), version_key(b))
}

fn numeric(part: Option<&Vec<char>>) -> (r: u64)
    ensures
        r == match part {
            Some(p) => numeric_of(p@),
            None => 0,
        },
{
    match part {
        Some(p) => {
            let t = trim_chars(p.as_slice());
            match parse_u64(t.as_slice()) {
                Some(n) => n,
                None => 0,
            }
        },
        None => 0,
    }
}

fn version_key_exec(version: &str) -> (r: (u64, u64, u64, bool))
    ensures
        r == version_key(version@),
{
    let chars = chars_of(version);
    let stripped = strip_v(chars.as_slice());
    let (core, pre) = split_pre_release(stripped.as_slice());
    let parts = split_chars(core.as_slice(), '.');
    let ghost views = crate::strings::char_vec_views(parts@);
    let first = numeric(if parts.len() > 0 { Some(&parts[0]) } else { None });
    let second = numeric(if parts.len() > 1 { Some(&parts[1]) } else { None });
    let third = numeric(if parts.len() > 2 { Some(&parts[2]) } else { None });
    proof {
        assert(views.len() == parts@.len());
        if parts@.len() > 0 {
            assert(views[0] == parts@[0]@);
        }
        if parts@.len() > 1 {
            assert(views[1] == parts@[1]@);
        }
        if parts@.len() > 2 {
            assert(views[2] == parts@[2]@);
        }
    }
    (first, second, third, !pre)
}

fn sign(x: u64, y: u64) -> (r: i8)
    ensures
        r == sign_of(x as int, y as int),
{
    if x < y {
        -1
    } else if x > y {
        1
    } else {
        0
    }
}

/// How `a` sorts against `b`: `-1`, `0` or `1`.
pub fn version_order_of(a: &str, b: &str) -> (r: i8)
    ensures
        r == version_order(a@, b@),
{
    let ka = version_key_exec(a);
    let kb = version_key_exec(b);
    if ka.0 != kb.0 {
        sign(ka.0, kb.0)
    } else if ka.1 != kb.1 {
        sign(ka.1, kb.1)
    } else if ka.2 != kb.2 {
        sign(ka.2, kb.2)
    } else if ka.3 == kb.3 {
        0
    } else if ka.3 {
        1
    } else {
        -1
    }
}

/// Orders two `MAJOR.MINOR.PATCH` versions. Missing components count as zero,
/// and a pre-release suffix sorts below the release it leads to, so
/// `1.0.0-rc1` never looks like an update over `1.0.0`.
pub fn compare_versions(a: &str, b: &str) -> (r: Ordering)
    ensures
        r == if version_order(a@, b@) < 0 {
            Ordering::Less
        } else if version_order(a@, b@) > 0 {
            Ordering::Greater
        } else {
            Ordering::Equal
        },
{
    let order = version_order_of(a, b);
    if order < 0 {
        Ordering::Less
    } else if order > 0 {
        Ordering::Greater
    } else {
        Ordering::Equal
    }
}

/// Whether `candidate` is strictly newer than `current`.
pub fn is_newer(candidate: &str, current: &str) -> (r: bool)
    ensures
        r == (version_order(candidate@, current@) > 0),
{
    version_order_of(candidate, current) > 0
}

// MARK: - Laws of the ordering

/// Every version sorts level with itself, so the same version is never an update.
pub proof fn lemma_version_order_is_reflexive(a: Seq<char>)
    ensures
        version_order(a, a) == 0,
{
}

/// Swapping the two versions flips the answer: `a` is newer than `b` exactly
/// when `b` is older than `a`.
pub proof fn lemma_version_order_is_antisymmetric(a: Seq<char>, b: Seq<char>)
    ensures
        version_order(a, b) == -version_order(b, a),
{
}

/// The ordering chains: newer than newer is newer, and level with level is level.
pub proof fn lemma_version_order_is_transitive(a: Seq<char>, b: Seq<char>, c: Seq<char>)
    ensures
        version_order(a, b) > 0 && version_order(b, c) > 0 ==> version_order(a, c) > 0,
        version_order(a, b) >= 0 && version_order(b, c) >= 0 ==> version_order(a, c) >= 0,
        version_order(a, b) == 0 && version_order(b, c) == 0 ==> version_order(a, c) == 0,
{
}

/// A release sorts above any pre-release of the same core.
pub proof fn lemma_release_beats_its_prerelease(release: Seq<char>, pre: Seq<char>)
    requires
        core_of(stripped_v(release)).0 == core_of(stripped_v(pre)).0,
        !core_of(stripped_v(release)).1,
        core_of(stripped_v(pre)).1,
    ensures
        version_order(release, pre) == 1,
{
}

} // verus!
