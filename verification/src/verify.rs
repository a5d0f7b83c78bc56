//! Tag provenance: which repository URLs name a GitHub repository, how the
//! tag lookup request is built, and what a lookup answer means.
//!
//! Owner, repository and tag go into URL path segments, so every byte outside
//! the RFC 3986 unreserved set (ASCII letters and digits, `-`, `.`, `_`, `~`)
//! is percent-encoded and a segment can never alter the request path.
use vstd::prelude::*;
use vstd::string::*;
use crate::text::{chars_of, has_prefix, has_suffix, sub_chars, string_of, push_char, owned};
use crate::crypto::{percent_encode_byte, percent_triplet};
use crate::config::TagPolicy;

verus! {

/// The outcome of a tag check.
#[derive(Debug, PartialEq, Eq)]
pub enum TagCheck {
    /// Verification disabled or the host is not verifiable; the publish proceeds.
    Skipped,
    /// The tag exists; `commit` is the commit it points at when the answer named one.
    Verified { commit: Option<String> },
    /// The repository does not carry the tag.
    Missing,
}

/// Characters allowed in a GitHub owner or repository segment.
pub open spec fn is_segment_char(c: char) -> bool {
    ('a' <= c && c <= 'z') || ('A' <= c && c <= 'Z') || ('0' <= c && c <= '9') || c == '.'
        || c == '_' || c == '-'
}

/// A segment that is safe in an API path: non-empty, only `[A-Za-z0-9._-]`,
/// and not made of dots alone (so never `.` or `..`).
pub open spec fn valid_repo_segment_spec(s: Seq<char>) -> bool {
    &&& s.len() > 0
    &&& forall|i: int| 0 <= i < s.len() ==> is_segment_char(#[trigger] s[i])
    &&& exists|i: int| 0 <= i < s.len() && #[trigger] s[i] != '.'
}

/// Owner and repository names may use every ASCII letter of either case,
/// every ASCII digit and `.`, `_`, `-`, and nothing else: a text is a valid
/// segment exactly when it is non-empty, made of those characters, and not
/// all dots.
pub proof fn lemma_segment_alphabet(s: Seq<char>)
    ensures
        valid_repo_segment_spec(s) <==> (s.len() > 0
            && (forall|i: int| 0 <= i < s.len() ==> {
                let c = #[trigger] s[i];
                ('a' <= c <= 'z') || ('A' <= c <= 'Z') || ('0' <= c <= '9') || c == '.' || c == '_' || c == '-'
            })
            && (exists|i: int| 0 <= i < s.len() && #[trigger] s[i] != '.')),
{
}

/// Whether `p` is a prefix of `s`.
pub open spec fn starts_with(s: Seq<char>, p: Seq<char>) -> bool {
    s.len() >= p.len() && s.subrange(0, p.len() as int) == p
}

/// What follows one of the accepted GitHub URL prefixes.
pub open spec fn github_rest(url: Seq<char>) -> Option<Seq<char>> {
    if starts_with(url, "https://github.com/"@) {
        Some(url.skip("https://github.com/"@.len() as int))
    } else if starts_with(url, "http://github.com/"@) {
        Some(url.skip("http://github.com/"@.len() as int))
    } else if starts_with(url, "git@github.com:"@) {
        Some(url.skip("git@github.com:"@.len() as int))
    } else {
        None
    }
}

/// `s` with every trailing `c` removed.
pub open spec fn trim_end_char(s: Seq<char>, c: char) -> Seq<char>
    decreases s.len(),
{
    if s.len() > 0 && s.last() == c {
        trim_end_char(s.drop_last(), c)
    } else {
        s
    }
}

/// `s` with every trailing `.git` removed.
pub open spec fn trim_end_git(s: Seq<char>) -> Seq<char>
    decreases s.len(),
{
    if s.len() >= 4 && s.subrange(s.len() - 4, s.len() as int) == seq!['.', 'g', 'i', 't'] {
        trim_end_git(s.subrange(0, s.len() - 4))
    } else {
        s
    }
}

/// The position of the first `c` in `s`.
pub open spec fn first_index(s: Seq<char>, c: char) -> Option<nat>
    decreases s.len(),
{
    if s.len() == 0 {
        None
    } else if s[0] == c {
        Some(0)
    } else {
        match first_index(s.drop_first(), c) {
            Some(i) => Some(i + 1),
            None => None,
        }
    }
}

/// `(owner, repo)` of `https://github.com/{owner}/{repo}[.git]` (also
/// `http://` and `git@github.com:`), after trailing `/` and `.git` are
/// dropped, when the text splits at its first `/` into two valid segments.
pub open spec fn parse_github_spec(url: Seq<char>) -> Option<(Seq<char>, Seq<char>)> {
    match github_rest(url) {
        None => None,
        Some(rest0) => {
            let rest = trim_end_git(trim_end_char(rest0, '/'));
            match first_index(rest, '/') {
                None => None,
                Some(i) => {
                    let owner = rest.subrange(0, i as int);
                    let repo = rest.subrange(i as int + 1, rest.len() as int);
                    if valid_repo_segment_spec(owner) && valid_repo_segment_spec(repo) {
                        Some((owner, repo))
                    } else {
                        None
                    }
                }
            }
        }
    }
}

fn is_segment_char_exec(c: char) -> (r: bool)
    ensures
        r == is_segment_char(c),
{
    ('a' <= c && c <= 'z') || ('A' <= c && c <= 'Z') || ('0' <= c && c <= '9') || c == '.'
        || c == '_' || c == '-'
}

fn valid_segment_chars(s: &[char]) -> (r: bool)
    ensures
        r == valid_repo_segment_spec(s@),
{
    if s.len() == 0 {
        return false;
    }
    let mut i: usize = 0;
    let mut undotted = false;
    while i < s.len()
        invariant
            i <= s@.len(),
            forall|j: int| 0 <= j < i ==> is_segment_char(#[trigger] s@[j]),
            undotted <==> exists|j: int| 0 <= j < i && #[trigger] s@[j] != '.',
        decreases s.len() - i,
    {
        if !is_segment_char_exec(s[i]) {
            return false;
        }
        if s[i] != '.' {
            undotted = true;
        }
        i = i + 1;
    }
    undotted
}

/// Whether `segment` is safe to put into an API path as an owner or repository.
pub fn valid_repo_segment(segment: &str) -> (r: bool)
    ensures
        r == valid_repo_segment_spec(segment@),
{
    let cs = chars_of(segment);
    valid_segment_chars(cs.as_slice())
}

fn strip_github_prefix(url: &[char]) -> (r: Option<Vec<char>>)
    ensures
        r matches Some(v) ==> github_rest(url@) == Some(v@),
        r is None ==> github_rest(url@) is None,
{
    proof {
        reveal_strlit("https://github.com/");
        reveal_strlit("http://github.com/");
        reveal_strlit("git@github.com:");
    }
    if has_prefix(url, "https://github.com/") {
        Some(sub_chars(url, 19, url.len()))
    } else if has_prefix(url, "http://github.com/") {
        Some(sub_chars(url, 18, url.len()))
    } else if has_prefix(url, "git@github.com:") {
        Some(sub_chars(url, 15, url.len()))
    } else {
        None
    }
}

fn trimmed_end(rest: &[char]) -> (end: usize)
    ensures
        end <= rest@.len(),
        rest@.subrange(0, end as int) == trim_end_git(trim_end_char(rest@, '/')),
{
    let mut end: usize = rest.len();
    proof { assert(rest@.subrange(0, end as int) =~= rest@); }
    while end > 0 && rest[end - 1] == '/'
        invariant
            end <= rest@.len(),
            trim_end_char(rest@.subrange(0, end as int), '/') == trim_end_char(rest@, '/'),
        decreases end,
    {
        assert(rest@.subrange(0, end as int).drop_last() =~= rest@.subrange(0, end - 1));
        end = end - 1;
    }
    let ghost t = trim_end_char(rest@, '/');
    assert(rest@.subrange(0, end as int) == t);
    loop
        invariant
            end <= rest@.len(),
            t == trim_end_char(rest@, '/'),
            trim_end_git(rest@.subrange(0, end as int)) == trim_end_git(t),
        decreases end,
    {
        proof { reveal_strlit(".git"); }
        let head = sub_chars(rest, 0, end);
        if !has_suffix(head.as_slice(), ".git") {
            assert(".git"@ =~= seq!['.', 'g', 'i', 't']);
            return end;
        }
        assert(".git"@ =~= seq!['.', 'g', 'i', 't']);
        assert(rest@.subrange(0, end as int).subrange(0, end - 4) =~= rest@.subrange(0, end - 4));
        end = end - 4;
    }
}

fn first_slash(s: &[char]) -> (r: Option<usize>)
    ensures
        r matches Some(i) ==> first_index(s@, '/') == Some(i as nat) && i < s@.len(),
        r is None ==> first_index(s@, '/') is None,
{
    let mut i: usize = 0;
    while i < s.len()
        invariant
            i <= s@.len(),
            forall|j: int| 0 <= j < i ==> s@[j] != '/',
        decreases s.len() - i,
    {
        if s[i] == '/' {
            proof { lemma_first_index_at(s@, i as int); }
            return Some(i);
        }
        i = i + 1;
    }
    proof { lemma_first_index_none(s@); }
    None
}

proof fn lemma_first_index_at(s: Seq<char>, i: int)
    requires
        0 <= i < s.len(),
        s[i] == '/',
        forall|j: int| 0 <= j < i ==> s[j] != '/',
    ensures
        first_index(s, '/') == Some(i as nat),
    decreases i,
{
    if i > 0 {
        lemma_first_index_at(s.drop_first(), i - 1);
    }
}

proof fn lemma_first_index_none(s: Seq<char>)
    requires
        forall|j: int| 0 <= j < s.len() ==> s[j] != '/',
    ensures
        first_index(s, '/') is None,
    decreases s.len(),
{
    if s.len() > 0 {
        lemma_first_index_none(s.drop_first());
    }
}

/// Split `https://github.com/{owner}/{repo}[.git]` into `(owner, repo)`.
pub fn parse_github(repo_url: &str) -> (r: Option<(String, String)>)
    ensures
        r matches Some((o, p)) ==> parse_github_spec(repo_url@) == Some((o@, p@)),
        r is None <==> parse_github_spec(repo_url@) is None,
{
    let url = chars_of(repo_url);
    let rest0 = match strip_github_prefix(url.as_slice()) {
        Some(v) => v,
        None => return None,
    };
    let end = trimmed_end(rest0.as_slice());
    let rest = sub_chars(rest0.as_slice(), 0, end);
    let i = match first_slash(rest.as_slice()) {
        Some(i) => i,
        None => return None,
    };
    let owner = sub_chars(rest.as_slice(), 0, i);
    let repo = sub_chars(rest.as_slice(), i + 1, rest.len());
    let mut repo_has_slash = false;
    let mut k: usize = 0;
    while k < repo.len()
        invariant
            k <= repo@.len(),
            repo_has_slash ==> exists|j: int| 0 <= j < repo@.len() && repo@[j] == '/',
        decreases repo.len() - k,
    {
        if repo[k] == '/' {
            repo_has_slash = true;
        }
        k = k + 1;
    }
    if !repo_has_slash && valid_segment_chars(owner.as_slice()) && valid_segment_chars(
        repo.as_slice(),
    ) {
        Some((string_of(owner.as_slice()), string_of(repo.as_slice())))
    } else {
        proof {
            if repo_has_slash {
                let j = choose|j: int| 0 <= j < repo@.len() && repo@[j] == '/';
                assert(!is_segment_char(repo@[j]));
            }
        }
        None
    }
}

/// Bytes that stand for themselves in a path segment.
pub open spec fn is_unreserved_byte(b: u8) -> bool {
    (48 <= b && b <= 57) || (65 <= b && b <= 90) || (97 <= b && b <= 122) || b == 45 || b == 46
        || b == 95 || b == 126
}

/// Percent-encoding of a byte string for a URL path segment: unreserved
/// bytes stay, every other byte becomes `%XY`.
pub open spec fn encode_segment_bytes(bytes: Seq<u8>) -> Seq<char>
    decreases bytes.len(),
{
    if bytes.len() == 0 {
        Seq::empty()
    } else {
        let b = bytes.last();
        encode_segment_bytes(bytes.drop_last()) + if is_unreserved_byte(b) {
            seq![b as char]
        } else {
            percent_triplet(b)
        }
    }
}

/// Percent-encode the UTF-8 bytes of `text` for one URL path segment.
pub fn encode_path_segment(text: &str) -> (r: String)
    ensures
        r@ == encode_segment_bytes(text.spec_bytes()),
{
    let bytes = text.as_bytes();
    let mut r = String::new();
    let mut i: usize = 0;
    while i < bytes.len()
        invariant
            i <= bytes@.len(),
            r@ == encode_segment_bytes(bytes@.subrange(0, i as int)),
        decreases bytes.len() - i,
    {
        let b = bytes[i];
        assert(bytes@.subrange(0, i + 1).drop_last() =~= bytes@.subrange(0, i as int));
        if (48 <= b && b <= 57) || (65 <= b && b <= 90) || (97 <= b && b <= 122) || b == 45 || b
            == 46 || b == 95 || b == 126 {
            push_char(&mut r, b as char);
        } else {
            r.append(percent_encode_byte(b));
        }
        i = i + 1;
    }
    assert(bytes@.subrange(0, bytes@.len() as int) =~= bytes@);
    r
}

/// The GitHub API address of a tag reference.
pub open spec fn tag_ref_url(owner: Seq<char>, repo: Seq<char>, tag: Seq<char>) -> Seq<char> {
    "https://api.github.com/repos/"@ + owner + "/"@ + repo + "/git/ref/tags/"@ + tag
}

/// The request a tag check makes: none when the policy is off, the VCS does
/// not use git tags, or the URL is not a GitHub repository; otherwise the
/// lookup of the tag reference, every segment percent-encoded.
pub open spec fn tag_lookup_spec(
    policy: TagPolicy,
    uses_git_tags: bool,
    repo_url: Seq<char>,
    tag: Seq<u8>,
) -> Option<Seq<char>> {
    if policy == TagPolicy::Off || !uses_git_tags {
        None
    } else {
        match parse_github_spec(repo_url) {
            None => None,
            Some((owner, repo)) => Some(
                tag_ref_url(
                    encode_segment_bytes(vstd::utf8::encode_utf8(owner)),
                    encode_segment_bytes(vstd::utf8::encode_utf8(repo)),
                    encode_segment_bytes(tag),
                ),
            ),
        }
    }
}

/// The URL a tag check must fetch, or `None` when the check is skipped.
pub fn tag_lookup_url(policy: TagPolicy, uses_git_tags: bool, repo_url: &str, tag: &str) -> (r:
    Option<String>)
    ensures
        r matches Some(u) ==> tag_lookup_spec(policy, uses_git_tags, repo_url@, tag.spec_bytes())
            == Some(u@),
        r is None <==> tag_lookup_spec(policy, uses_git_tags, repo_url@, tag.spec_bytes()) is None,
{
    if policy == TagPolicy::Off || !uses_git_tags {
        return None;
    }
    match parse_github(repo_url) {
        None => None,
        Some((owner, repo)) => {
            let mut u = String::new();
            u.append("https://api.github.com/repos/");
            let eo = encode_path_segment(owner.as_str());
            u.append(eo.as_str());
            u.append("/");
            let er = encode_path_segment(repo.as_str());
            u.append(er.as_str());
            u.append("/git/ref/tags/");
            let et = encode_path_segment(tag);
            u.append(et.as_str());
            assert(u@ =~= tag_ref_url(eo@, er@, et@));
            Some(u)
        }
    }
}

/// The text of an optional string slice.
pub open spec fn str_opt(o: Option<&str>) -> Option<Seq<char>> {
    match o {
        Some(s) => Some(s@),
        None => None,
    }
}

/// The text of an optional owned string.
pub open spec fn opt_text(o: Option<String>) -> Option<Seq<char>> {
    match o {
        Some(s) => Some(s@),
        None => None,
    }
}

/// The commit a tag reference names: its `sha` when its object is a commit.
pub open spec fn commit_named(object_type: Option<Seq<char>>, sha: Option<Seq<char>>) -> Option<
    Seq<char>,
> {
    if object_type == Some("commit"@) {
        sha
    } else {
        None
    }
}

/// What a tag lookup answer means: `404` is a missing tag, another client or
/// server error status is a failure (`Err` with the status), and any other
/// answer verifies the tag, naming the commit when the reference points at
/// a commit object.
pub fn tag_check(status: u16, object_type: Option<&str>, sha: Option<&str>) -> (r: Result<
    TagCheck,
    u16,
>)
    ensures
        status == 404 ==> r == Ok::<TagCheck, u16>(TagCheck::Missing),
        (status != 404 && 400 <= status <= 599) ==> r == Err::<TagCheck, u16>(status),
        !(400 <= status <= 599) ==> (r matches Ok(TagCheck::Verified { commit })
            && opt_text(commit) == commit_named(str_opt(object_type), str_opt(sha))),
{
    if status == 404 {
        return Ok(TagCheck::Missing);
    }
    if 400 <= status && status <= 599 {
        return Err(status);
    }
    let is_commit = match object_type {
        Some(t) => crate::text::str_eq(t, "commit"),
        None => false,
    };
    let commit = if is_commit {
        match sha {
            Some(s) => Some(owned(s)),
            None => None,
        }
    } else {
        None
    };
    Ok(TagCheck::Verified { commit })
}


/// Characters that may appear in an encoded path segment: unreserved
/// characters, `%` and uppercase hex digits.
pub open spec fn is_segment_output_char(c: char) -> bool {
    ('a' <= c && c <= 'z') || ('A' <= c && c <= 'Z') || ('0' <= c && c <= '9') || c == '-' || c == '.'
        || c == '_' || c == '~' || c == '%'
}

/// An encoded segment can never alter the request path or query: every
/// character is unreserved or part of a `%XY` escape, so no `/`, `?`, `#`
/// or space survives encoding.
pub proof fn lemma_encoded_segment_is_inert(bytes: Seq<u8>)
    ensures
        forall|i: int|
            0 <= i < encode_segment_bytes(bytes).len() ==> is_segment_output_char(
                #[trigger] encode_segment_bytes(bytes)[i],
            ),
    decreases bytes.len(),
{
    if bytes.len() > 0 {
        lemma_encoded_segment_is_inert(bytes.drop_last());
        let b = bytes.last();
        let head = encode_segment_bytes(bytes.drop_last());
        let tail = if is_unreserved_byte(b) { seq![b as char] } else { percent_triplet(b) };
        assert(encode_segment_bytes(bytes) == head + tail);
        if is_unreserved_byte(b) {
            assert(is_segment_output_char(b as char));
        } else {
            assert(is_segment_output_char(tail[0]));
            assert(is_segment_output_char(tail[1]));
            assert(is_segment_output_char(tail[2]));
        }
        assert forall|i: int| 0 <= i < (head + tail).len() implies is_segment_output_char(
            #[trigger] (head + tail)[i],
        ) by {
            if i < head.len() {
                assert((head + tail)[i] == head[i]);
            } else {
                assert((head + tail)[i] == tail[i - head.len()]);
            }
        }
    }
}

/// Owner and repository taken from a URL can never traverse the API path:
/// neither holds a `/`, and neither is `.`, `..` or any other all-dots text.
pub proof fn lemma_github_segments_never_traverse(url: Seq<char>)
    requires
        parse_github_spec(url) is Some,
    ensures
        ({
            let (owner, repo) = parse_github_spec(url)->0;
            &&& forall|i: int| 0 <= i < owner.len() ==> owner[i] != '/'
            &&& forall|i: int| 0 <= i < repo.len() ==> repo[i] != '/'
            &&& exists|i: int| 0 <= i < owner.len() && owner[i] != '.'
            &&& exists|i: int| 0 <= i < repo.len() && repo[i] != '.'
        }),
{
    let (owner, repo) = parse_github_spec(url)->0;
    assert forall|i: int| 0 <= i < owner.len() implies owner[i] != '/' by {
        assert(is_segment_char(owner[i]));
    }
    assert forall|i: int| 0 <= i < repo.len() implies repo[i] != '/' by {
        assert(is_segment_char(repo[i]));
    }
}

} // verus!
