//! Read-side rules of the registry: which versions are visible and which is
//! latest, package tags and tag filters, list pagination, version metadata,
//! and the audit-log query.
use vstd::prelude::*;
use crate::versions::{sort_versions_desc, sorted_desc, texts, version_lt, lemma_version_lt_irreflexive};
use crate::text::{owned, str_eq, chars_of, string_of};
use crate::error::{ApiErr, ApiResult, err_view};
use crate::audit::{AuditAction, action_of};
use crate::publish::{ArtifactFormat, artifact_format};

verus! {

broadcast use vstd::seq_lib::group_seq_properties;

/// A stored version row. `published_at` is the RFC 3339 text of the time.
#[derive(Debug)]
pub struct VersionRow {
    pub id: u128,
    pub package_id: u128,
    pub version: String,
    pub sha256: String,
    pub size: i64,
    pub format: String,
    pub vcs_tag: String,
    pub vcs_commit: Option<String>,
    pub artifact_key: String,
    pub yanked: bool,
    pub published_at: String,
}

/// The versions of the rows that are not yanked, in row order.
pub open spec fn visible_texts(rows: Seq<VersionRow>) -> Seq<Seq<char>>
    decreases rows.len(),
{
    if rows.len() == 0 {
        Seq::empty()
    } else if rows.last().yanked {
        visible_texts(rows.drop_last())
    } else {
        visible_texts(rows.drop_last()).push(rows.last().version@)
    }
}

fn visible_versions(rows: &[VersionRow]) -> (r: Vec<String>)
    ensures
        texts(r@) == visible_texts(rows@),
{
    let mut r: Vec<String> = Vec::new();
    let mut i: usize = 0;
    while i < rows.len()
        invariant
            i <= rows@.len(),
            texts(r@) == visible_texts(rows@.subrange(0, i as int)),
        decreases rows.len() - i,
    {
        assert(rows@.subrange(0, i + 1).drop_last() =~= rows@.subrange(0, i as int));
        if !rows[i].yanked {
            let ghost before = r@;
            r.push(owned(rows[i].version.as_str()));
            assert(texts(r@) =~= texts(before).push(rows@[i as int].version@));
        }
        i = i + 1;
    }
    assert(rows@.subrange(0, rows@.len() as int) =~= rows@);
    r
}

/// Every visible (un-yanked) version, highest first. Publication time plays
/// no part: backfilling an older release never makes it "newer".
pub fn visible_versions_desc(rows: &[VersionRow]) -> (r: Vec<String>)
    ensures
        sorted_desc(texts(r@)),
        texts(r@).to_multiset() == visible_texts(rows@).to_multiset(),
{
    let v = visible_versions(rows);
    sort_versions_desc(v)
}

/// The highest visible version, if any version is visible.
pub fn latest_visible_version(rows: &[VersionRow]) -> (r: Option<String>)
    ensures
        r is None <==> visible_texts(rows@).len() == 0,
        r matches Some(v) ==> visible_texts(rows@).contains(v@) && forall|j: int|
            0 <= j < visible_texts(rows@).len() ==> !version_lt(v@, #[trigger] visible_texts(rows@)[j]),
{
    let mut sorted = visible_versions_desc(rows);
    let ghost vis = visible_texts(rows@);
    let ghost t = texts(sorted@);
    proof {
        vis.to_multiset_ensures();
        t.to_multiset_ensures();
    }
    if sorted.len() == 0 {
        proof {
            assert(t.to_multiset().len() == 0);
        }
        return None;
    }
    let first = sorted.remove(0);
    proof {
        assert(t.contains(t[0]));
        assert forall|j: int| 0 <= j < vis.len() implies !version_lt(first@, #[trigger] vis[j]) by {
            assert(vis.contains(vis[j]));
            assert(t.to_multiset().count(vis[j]) > 0);
            assert(t.contains(vis[j]));
            let k = choose|k: int| 0 <= k < t.len() && t[k] == vis[j];
            if k == 0 {
                lemma_version_lt_irreflexive(first@);
            }
        }
        assert(t.to_multiset().count(t[0]) > 0);
    }
    Some(first)
}

/// A package's `tags` column: a JSON array whose elements are strings or
/// other values, or some other JSON value.
#[derive(Debug)]
pub enum StoredTags {
    /// A JSON array; `None` stands for an element that is not a string.
    Array(Vec<Option<String>>),
    /// Any value that is not an array.
    NotArray,
}

/// The string elements of an array, in order.
pub open spec fn string_elements(a: Seq<Option<String>>) -> Seq<Seq<char>>
    decreases a.len(),
{
    if a.len() == 0 {
        Seq::empty()
    } else {
        match a.last() {
            Some(s) => string_elements(a.drop_last()).push(s@),
            None => string_elements(a.drop_last()),
        }
    }
}

/// The tags of a package: the string elements of its stored array; a
/// malformed or legacy value yields no tags.
pub open spec fn tags_spec(t: StoredTags) -> Seq<Seq<char>> {
    match t {
        StoredTags::Array(a) => string_elements(a@),
        StoredTags::NotArray => Seq::empty(),
    }
}

/// Extract a package's tags.
pub fn tags_of(t: &StoredTags) -> (r: Vec<String>)
    ensures
        texts(r@) == tags_spec(*t),
{
    match t {
        StoredTags::NotArray => {
            let r: Vec<String> = Vec::new();
            assert(texts(r@) =~= Seq::<Seq<char>>::empty());
            r
        },
        StoredTags::Array(a) => {
            let mut r: Vec<String> = Vec::new();
            let mut i: usize = 0;
            while i < a.len()
                invariant
                    i <= a@.len(),
                    texts(r@) == string_elements(a@.subrange(0, i as int)),
                decreases a.len() - i,
            {
                assert(a@.subrange(0, i + 1).drop_last() =~= a@.subrange(0, i as int));
                match &a[i] {
                    Some(s) => {
                        let ghost before = r@;
                        r.push(owned(s.as_str()));
                        assert(texts(r@) =~= texts(before).push(s@));
                    },
                    None => {},
                }
                i = i + 1;
            }
            assert(a@.subrange(0, a@.len() as int) =~= a@);
            r
        },
    }
}

/// The trimmed, non-empty pieces, in order.
pub open spec fn trimmed_nonempty(pieces: Seq<Seq<char>>) -> Seq<Seq<char>>
    decreases pieces.len(),
{
    if pieces.len() == 0 {
        Seq::empty()
    } else {
        let r = trimmed_nonempty(pieces.drop_last());
        let t = crate::auth::trim(pieces.last());
        if t.len() > 0 { r.push(t) } else { r }
    }
}

/// The tags a filter asks for: the comma-separated pieces of the filter,
/// with surrounding whitespace removed and empty pieces dropped.
pub open spec fn filter_tags_spec(filter: Option<Seq<char>>) -> Seq<Seq<char>> {
    match filter {
        Some(s) => trimmed_nonempty(crate::text::split_on(s, ',')),
        None => Seq::empty(),
    }
}

fn push_piece(out: &mut Vec<String>, piece: &Vec<char>)
    ensures
        texts(final(out)@) == if crate::auth::trim(piece@).len() > 0 {
            texts(old(out)@).push(crate::auth::trim(piece@))
        } else {
            texts(old(out)@)
        },
{
    let t = crate::auth::trim_chars(piece.as_slice());
    if t.len() > 0 {
        let ghost before = out@;
        out.push(string_of(t.as_slice()));
        assert(texts(out@) =~= texts(before).push(crate::auth::trim(piece@)));
    }
}

/// Parse a tag filter into the tags it asks for.
pub fn parse_tag_filter(filter: &Option<String>) -> (r: Vec<String>)
    ensures
        texts(r@) == filter_tags_spec(crate::config::opt_view(*filter)),
{
    let mut out: Vec<String> = Vec::new();
    match filter {
        None => {
            assert(texts(out@) =~= Seq::<Seq<char>>::empty());
            out
        },
        Some(f) => {
            let cs = chars_of(f.as_str());
            let mut cur: Vec<char> = Vec::new();
            let ghost mut done: Seq<Seq<char>> = Seq::empty();
            let mut i: usize = 0;
            assert(cs@.subrange(0, 0) =~= Seq::<char>::empty());
            assert(texts(out@) =~= Seq::<Seq<char>>::empty());
            while i < cs.len()
                invariant
                    i <= cs@.len(),
                    crate::text::split_on(cs@.subrange(0, i as int), ',') == done.push(cur@),
                    texts(out@) == trimmed_nonempty(done),
                decreases cs.len() - i,
            {
                let c = cs[i];
                assert(cs@.subrange(0, i + 1).drop_last() =~= cs@.subrange(0, i as int));
                if c == ',' {
                    push_piece(&mut out, &cur);
                    proof {
                        assert(done.push(cur@).drop_last() =~= done);
                        done = done.push(cur@);
                    }
                    cur = Vec::new();
                    assert(crate::text::split_on(cs@.subrange(0, i + 1), ',') =~= done.push(cur@));
                } else {
                    cur.push(c);
                    assert(crate::text::split_on(cs@.subrange(0, i + 1), ',') =~= done.push(cur@));
                }
                i = i + 1;
            }
            push_piece(&mut out, &cur);
            proof {
                assert(cs@.subrange(0, cs@.len() as int) =~= cs@);
                assert(done.push(cur@).drop_last() =~= done);
            }
            out
        },
    }
}

/// Whether a package with `tags` carries every tag in `want`.
pub open spec fn has_all_tags_spec(tags: Seq<Seq<char>>, want: Seq<Seq<char>>) -> bool {
    forall|i: int| 0 <= i < want.len() ==> tags.contains(#[trigger] want[i])
}

/// Whether `tags` carries every tag in `want`.
pub fn has_all_tags(tags: &[String], want: &[String]) -> (r: bool)
    ensures
        r == has_all_tags_spec(texts(tags@), texts(want@)),
{
    let mut i: usize = 0;
    while i < want.len()
        invariant
            i <= want@.len(),
            forall|k: int| 0 <= k < i ==> texts(tags@).contains(#[trigger] texts(want@)[k]),
        decreases want.len() - i,
    {
        let mut found = false;
        let mut j: usize = 0;
        while j < tags.len() && !found
            invariant
                j <= tags@.len(),
                i < want@.len(),
                found ==> texts(tags@).contains(texts(want@)[i as int]),
                !found ==> forall|k: int| 0 <= k < j ==> texts(tags@)[k] != texts(want@)[i as int],
            decreases tags@.len() - j + (if found { 0int } else { 1int }),
        {
            if str_eq(tags[j].as_str(), want[i].as_str()) {
                assert(texts(tags@)[j as int] == texts(want@)[i as int]);
                found = true;
            } else {
                j = j + 1;
            }
        }
        if !found {
            assert(!texts(tags@).contains(texts(want@)[i as int]));
            return false;
        }
        i = i + 1;
    }
    true
}

/// Query parameters of the package list.
#[derive(Debug)]
pub struct ListParams {
    /// Comma-separated tag filter; a package must carry every tag.
    pub tags: Option<String>,
    pub limit: u64,
    pub offset: u64,
}

/// The page size when the caller does not give one.
pub fn default_limit() -> (r: u64)
    ensures
        r == 50,
{
    50
}

/// `x` clamped to `[lo, hi]`.
pub open spec fn clamp_spec(x: u64, lo: u64, hi: u64) -> u64 {
    if x < lo { lo } else if x > hi { hi } else { x }
}

/// The page size of a list request: between 1 and 200.
pub fn list_limit(requested: u64) -> (r: u64)
    ensures
        r == clamp_spec(requested, 1, 200),
{
    if requested < 1 { 1 } else if requested > 200 { 200 } else { requested }
}

/// Indices of the packages (newest first) that carry every wanted tag.
pub open spec fn matching_indices(tags: Seq<Seq<Seq<char>>>, want: Seq<Seq<char>>) -> Seq<int>
    decreases tags.len(),
{
    if tags.len() == 0 {
        Seq::empty()
    } else if has_all_tags_spec(tags.last(), want) {
        matching_indices(tags.drop_last(), want).push(tags.len() - 1)
    } else {
        matching_indices(tags.drop_last(), want)
    }
}

/// The tags of every package, as texts.
pub open spec fn tag_lists(packages: Seq<Vec<String>>) -> Seq<Seq<Seq<char>>> {
    packages.map_values(|t: Vec<String>| texts(t@))
}

/// A page of a tag-filtered listing: how many packages match in all, and
/// the indices (into `packages`, newest first) of the matches after skipping
/// `offset` of them, at most `limit` of them.
pub fn tagged_page(packages: &[Vec<String>], want: &[String], offset: u64, limit: u64) -> (r: (u64, Vec<usize>))
    ensures
        r.0 == matching_indices(tag_lists(packages@), texts(want@)).len(),
        r.1@.map_values(|i: usize| i as int) == matching_indices(tag_lists(packages@), texts(want@)).skip(
            if offset <= r.0 { offset as int } else { r.0 as int },
        ).take(
            if limit as int <= r.0 - (if offset <= r.0 { offset as int } else { r.0 as int }) {
                limit as int
            } else {
                r.0 - (if offset <= r.0 { offset as int } else { r.0 as int })
            },
        ),
{
    let ghost tl = tag_lists(packages@);
    let ghost w = texts(want@);
    let mut all: Vec<usize> = Vec::new();
    let mut i: usize = 0;
    while i < packages.len()
        invariant
            i <= packages@.len(),
            tl == tag_lists(packages@),
            w == texts(want@),
            all@.map_values(|k: usize| k as int) == matching_indices(tl.subrange(0, i as int), w),
            forall|k: int| 0 <= k < all@.len() ==> all@[k] < i,
        decreases packages.len() - i,
    {
        assert(tl.subrange(0, i + 1).drop_last() =~= tl.subrange(0, i as int));
        assert(tl.subrange(0, i + 1).last() == texts(packages@[i as int]@));
        let ghost before = all@;
        if has_all_tags(packages[i].as_slice(), want) {
            all.push(i);
            assert(all@.map_values(|k: usize| k as int) =~= before.map_values(|k: usize| k as int).push(i as int));
        }
        i = i + 1;
    }
    assert(tl.subrange(0, packages@.len() as int) =~= tl);
    let total = all.len() as u64;
    let start: usize = if offset <= total { offset as usize } else { all.len() };
    let remaining = all.len() - start;
    let count: usize = if limit <= remaining as u64 { limit as usize } else { remaining };
    let mut page: Vec<usize> = Vec::new();
    let mut k: usize = 0;
    assert(start + count <= all@.len());
    while k < count
        invariant
            all@.len() <= usize::MAX,
            k <= count,
            start + count <= all@.len(),
            page@ == all@.subrange(start as int, start + k),
        decreases count - k,
    {
        page.push(all[start + k]);
        k = k + 1;
        assert(page@ =~= all@.subrange(start as int, start + k));
    }
    assert(page@.map_values(|i: usize| i as int) =~= all@.map_values(|k: usize| k as int).skip(start as int).take(count as int));
    (total, page)
}

/// The download path of an artifact.
pub open spec fn artifact_path_spec(sha: Seq<char>) -> Seq<char> {
    "/v1/artifacts/"@ + sha
}

/// Public metadata of one version.
#[derive(Debug)]
pub struct VersionMetadata {
    pub org: String,
    pub name: String,
    pub version: String,
    pub sha256: String,
    pub size: u64,
    pub format: ArtifactFormat,
    pub vcs_tag: String,
    pub vcs_commit: Option<String>,
    pub download_url: String,
    pub published_at: String,
    pub yanked: bool,
}

/// The metadata served for a version row; the download URL is the public
/// base URL followed by the artifact's path, for a yanked row as for any
/// other (a yanked version stays downloadable, it is only marked yanked).
pub fn version_metadata(public_base_url: &str, org: &str, name: &str, row: &VersionRow) -> (r: VersionMetadata)
    ensures
        r.org@ == org@ && r.name@ == name@ && r.version@ == row.version@ && r.sha256@ == row.sha256@,
        r.size == (if row.size < 0 { 0 } else { row.size as u64 }),
        r.format == (if row.format@ == "zip"@ { ArtifactFormat::Zip } else { ArtifactFormat::TarGz }),
        r.vcs_tag@ == row.vcs_tag@,
        crate::config::opt_view(r.vcs_commit) == crate::config::opt_view(row.vcs_commit),
        r.download_url@ == public_base_url@ + artifact_path_spec(row.sha256@),
        r.published_at@ == row.published_at@,
        r.yanked == row.yanked,
{
    let mut url = owned(public_base_url);
    url.append("/v1/artifacts/");
    url.append(row.sha256.as_str());
    VersionMetadata {
        org: owned(org),
        name: owned(name),
        version: owned(row.version.as_str()),
        sha256: owned(row.sha256.as_str()),
        size: if row.size < 0 { 0 } else { row.size as u64 },
        format: artifact_format(row.format.as_str()),
        vcs_tag: owned(row.vcs_tag.as_str()),
        vcs_commit: match &row.vcs_commit {
            Some(c) => Some(owned(c.as_str())),
            None => None,
        },
        download_url: url,
        published_at: owned(row.published_at.as_str()),
        yanked: row.yanked,
    }
}

/// Audit-log page size when the caller does not ask.
pub const DEFAULT_AUDIT_LIMIT: u64 = 100;

/// Largest audit-log page.
pub const MAX_AUDIT_LIMIT: u64 = 1000;

/// Most entries one chain verification walks.
pub const MAX_VERIFY_ROWS: u64 = 50000;

/// Query parameters of the audit log.
#[derive(Debug)]
pub struct AuditQuery {
    pub limit: Option<u64>,
    /// Restrict to one action (`publish`, `yank`, `unyank`, `org_claim`).
    pub action: Option<String>,
    /// Page backwards: only entries with a lower `seq` than this.
    pub before: Option<i64>,
}

/// The message of the 400 for an unknown action filter.
pub open spec fn invalid_action_message(action: Seq<char>) -> Seq<char> {
    "unknown action `"@ + action + "`; expected publish, yank, unyank, or org_claim"@
}

impl AuditQuery {
    /// An action filter must name a known action: a typo must not silently
    /// match everything.
    pub fn check_action(&self) -> (r: ApiResult<()>)
        ensures
            r is Ok <==> (self.action matches Some(a) ==> action_of(a@) is Some),
            r matches Err(e) ==> self.action is Some && e@ == err_view(
                400,
                "invalid_action"@,
                invalid_action_message(self.action->0@),
            ),
    {
        match &self.action {
            None => Ok(()),
            Some(a) => match AuditAction::parse(a.as_str()) {
                Some(_) => Ok(()),
                None => {
                    let mut m = owned("unknown action `");
                    m.append(a.as_str());
                    m.append("`; expected publish, yank, unyank, or org_claim");
                    Err(ApiErr::bad_request("invalid_action", m))
                },
            },
        }
    }

    /// The page size: the requested limit (default 100) clamped to `[1, 1000]`.
    pub fn page_limit(&self) -> (r: u64)
        ensures
            r == clamp_spec(
                match self.limit {
                    Some(l) => l,
                    None => DEFAULT_AUDIT_LIMIT,
                },
                1,
                MAX_AUDIT_LIMIT,
            ),
    {
        let l = match self.limit {
            Some(l) => l,
            None => DEFAULT_AUDIT_LIMIT,
        };
        if l < 1 { 1 } else if l > MAX_AUDIT_LIMIT { MAX_AUDIT_LIMIT } else { l }
    }
}

/// Bytes the artifact-buffering requests may hold at once by default.
pub const DEFAULT_ARTIFACT_SERVE_BUDGET: u64 = 268435456;

/// Most requests in flight at once.
pub const MAX_IN_FLIGHT_REQUESTS: u64 = 512;

/// How many artifact-buffering requests may run at once: the memory budget
/// over the largest artifact (at least one byte), clamped to between 1 and
/// the in-flight cap.
pub fn artifact_serve_concurrency(budget: u64, max_artifact_bytes: u64) -> (r: u64)
    ensures
        r == clamp_spec(
            budget / (if max_artifact_bytes < 1 { 1 } else { max_artifact_bytes }),
            1,
            MAX_IN_FLIGHT_REQUESTS,
        ),
        1 <= r <= MAX_IN_FLIGHT_REQUESTS,
{
    let per = if max_artifact_bytes < 1 { 1 } else { max_artifact_bytes };
    let n = budget / per;
    if n < 1 { 1 } else if n > MAX_IN_FLIGHT_REQUESTS { MAX_IN_FLIGHT_REQUESTS } else { n }
}


/// The answer to a yank or restore.
#[derive(Debug)]
pub struct YankResponse {
    pub org: String,
    pub name: String,
    pub version: String,
    pub yanked: bool,
}

/// The answer to a yank request that updated the row, and the audit entry
/// it records: `yank` when the version is now yanked, `unyank` when restored,
/// of `org/name@version`, with no detail.
pub fn yank_outcome(org_id: u128, org: &str, name: &str, version: &str, yanked: bool) -> (r: (
    YankResponse,
    crate::publish::AuditEntry,
))
    ensures
        r.0.org@ == org@ && r.0.name@ == name@ && r.0.version@ == version@ && r.0.yanked == yanked,
        r.1.org_id == org_id,
        r.1.action == (if yanked { AuditAction::Yank } else { AuditAction::Unyank }),
        r.1.subject@ == crate::publish::version_subject_spec(org@, name@, version@),
        r.1.detail is None,
{
    let entry = crate::publish::AuditEntry {
        org_id,
        action: if yanked { AuditAction::Yank } else { AuditAction::Unyank },
        subject: crate::publish::version_subject(org, name, version),
        detail: None,
    };
    (YankResponse { org: owned(org), name: owned(name), version: owned(version), yanked }, entry)
}

/// The headers of a whole-artifact download served by this process: the
/// format's media type, immutable caching, and the length.
pub fn artifact_headers(format: ArtifactFormat, len: u64) -> (r: [(&'static str, String); 3])
    ensures
        r[0].0@ == "content-type"@ && r[0].1@ == crate::publish::content_type_spec(format),
        r[1].0@ == "cache-control"@ && r[1].1@ == crate::files::IMMUTABLE_CACHE@,
        r[2].0@ == "content-length"@ && r[2].1@ == crate::text::decimal(len as nat),
{
    [
        ("content-type", owned(format.content_type())),
        ("cache-control", owned(crate::files::IMMUTABLE_CACHE)),
        ("content-length", crate::text::decimal_text(len as u128)),
    ]
}


/// One audit-log entry as answered to a reader.
#[derive(Debug)]
pub struct AuditEntryOut {
    pub at: String,
    /// The action as recorded (an action this server does not know is kept).
    pub action: String,
    /// The recorded action when it is one this server knows.
    pub action_kind: Option<AuditAction>,
    pub subject: String,
    pub actor_token_name: String,
    pub actor_role: String,
    pub detail: Option<String>,
    /// Chain position; negative stored values read as 0.
    pub seq: u64,
    pub entry_hash: String,
    pub prev_hash: Option<String>,
}

/// The answered form of a stored audit row.
pub fn to_entry(row: &crate::audit::AuditRow) -> (r: AuditEntryOut)
    ensures
        r.at@ == row.at@ && r.action@ == row.action@ && r.subject@ == row.subject@,
        r.action_kind == action_of(row.action@),
        r.actor_token_name@ == row.actor_token_name@ && r.actor_role@ == row.actor_role@,
        crate::config::opt_view(r.detail) == crate::config::opt_view(row.detail),
        r.seq == (if row.seq < 0 { 0 } else { row.seq as u64 }),
        r.entry_hash@ == row.entry_hash@,
        crate::config::opt_view(r.prev_hash) == crate::config::opt_view(row.prev_hash),
{
    AuditEntryOut {
        at: owned(row.at.as_str()),
        action: owned(row.action.as_str()),
        action_kind: AuditAction::parse(row.action.as_str()),
        subject: owned(row.subject.as_str()),
        actor_token_name: owned(row.actor_token_name.as_str()),
        actor_role: owned(row.actor_role.as_str()),
        detail: match &row.detail {
            Some(d) => Some(owned(d.as_str())),
            None => None,
        },
        seq: if row.seq < 0 { 0 } else { row.seq as u64 },
        entry_hash: owned(row.entry_hash.as_str()),
        prev_hash: match &row.prev_hash {
            Some(p) => Some(owned(p.as_str())),
            None => None,
        },
    }
}

/// The answer to a chain verification.
#[derive(Debug)]
pub struct AuditIntegrityResponse {
    pub org: String,
    pub intact: bool,
    pub entries_checked: u64,
    pub first_bad_seq: Option<u64>,
    pub problem: Option<String>,
    pub head_hash: Option<String>,
}

/// The answered form of a chain report: positions below zero read as 0 and
/// the problem by its stable name.
pub fn integrity_response(org: &str, report: &crate::audit::ChainReport) -> (r: AuditIntegrityResponse)
    ensures
        r.org@ == org@,
        r.intact == report.intact,
        r.entries_checked == report.entries_checked,
        r.first_bad_seq == match report.first_bad_seq {
            Some(s) => Some(if s < 0 { 0u64 } else { s as u64 }),
            None => None,
        },
        crate::config::opt_view(r.problem) == match report.problem {
            Some(p) => Some(crate::audit::problem_name(p)),
            None => None,
        },
        crate::config::opt_view(r.head_hash) == crate::config::opt_view(report.head_hash),
{
    AuditIntegrityResponse {
        org: owned(org),
        intact: report.intact,
        entries_checked: report.entries_checked,
        first_bad_seq: match report.first_bad_seq {
            Some(s) => Some(if s < 0 { 0 } else { s as u64 }),
            None => None,
        },
        problem: match report.problem {
            Some(p) => Some(owned(p.as_str())),
            None => None,
        },
        head_hash: match &report.head_hash {
            Some(h) => Some(owned(h.as_str())),
            None => None,
        },
    }
}

/// The hits of a semantic search, in neighbour order: a neighbour whose
/// package (or its org) no longer exists (`None`) is skipped, as is one that
/// lacks a wanted tag, and the walk stops once `limit` hits are found.
pub open spec fn semantic_hits(tags: Seq<Option<Seq<Seq<char>>>>, want: Seq<Seq<char>>, limit: nat) -> Seq<int>
    decreases tags.len(),
{
    if tags.len() == 0 {
        Seq::empty()
    } else {
        let prev = semantic_hits(tags.drop_last(), want, limit);
        if prev.len() >= limit {
            prev
        } else {
            match tags.last() {
                Some(t) => if has_all_tags_spec(t, want) { prev.push(tags.len() - 1) } else { prev },
                None => prev,
            }
        }
    }
}

/// The tags of each neighbour's package, as texts.
pub open spec fn neighbour_tags(n: Seq<Option<Vec<String>>>) -> Seq<Option<Seq<Seq<char>>>> {
    n.map_values(|o: Option<Vec<String>>| match o {
        Some(t) => Some(texts(t@)),
        None => None,
    })
}

/// Select the semantic-search hits among the neighbours.
pub fn select_semantic_hits(neighbours: &[Option<Vec<String>>], want: &[String], limit: u64) -> (r: Vec<usize>)
    ensures
        r@.map_values(|i: usize| i as int) == semantic_hits(neighbour_tags(neighbours@), texts(want@), limit as nat),
{
    let ghost nt = neighbour_tags(neighbours@);
    let mut hits: Vec<usize> = Vec::new();
    let mut i: usize = 0;
    while i < neighbours.len()
        invariant
            i <= neighbours@.len(),
            nt == neighbour_tags(neighbours@),
            hits@.map_values(|k: usize| k as int) == semantic_hits(nt.subrange(0, i as int), texts(want@), limit as nat),
        decreases neighbours.len() - i,
    {
        assert(nt.subrange(0, i + 1).drop_last() =~= nt.subrange(0, i as int));
        let ghost before = hits@;
        if (hits.len() as u64) < limit {
            match &neighbours[i] {
                Some(t) => {
                    if has_all_tags(t.as_slice(), want) {
                        hits.push(i);
                        assert(hits@.map_values(|k: usize| k as int) =~= before.map_values(|k: usize| k as int).push(i as int));
                    }
                },
                None => {},
            }
        }
        i = i + 1;
    }
    assert(nt.subrange(0, neighbours@.len() as int) =~= nt);
    hits
}

/// Embedding features need the Postgres (pgvector) backend.
pub fn require_vector_backend(is_postgres: bool) -> (r: ApiResult<()>)
    ensures
        r is Ok <==> is_postgres,
        r matches Err(e) ==> e@ == err_view(
            400,
            "vector_unsupported"@,
            "embedding search requires a Postgres (pgvector) backend"@,
        ),
{
    if is_postgres {
        Ok(())
    } else {
        Err(ApiErr::bad_request("vector_unsupported", owned("embedding search requires a Postgres (pgvector) backend")))
    }
}

/// One package in a listing.
#[derive(Debug)]
pub struct PackageSummary {
    pub org: String,
    pub name: String,
    pub description: Option<String>,
    pub latest: Option<String>,
    pub tags: Vec<String>,
}

/// The listing entry of a package: its org slug, name, description, tags,
/// and its highest visible version.
pub fn package_summary(org: &str, name: &str, description: &Option<String>, tags: &StoredTags, versions: &[VersionRow]) -> (r: PackageSummary)
    ensures
        r.org@ == org@ && r.name@ == name@,
        crate::config::opt_view(r.description) == crate::config::opt_view(*description),
        texts(r.tags@) == tags_spec(*tags),
        r.latest is None <==> visible_texts(versions@).len() == 0,
        r.latest matches Some(v) ==> crate::versions::is_highest(v@, visible_texts(versions@)),
{
    PackageSummary {
        org: owned(org),
        name: owned(name),
        description: match description {
            Some(d) => Some(owned(d.as_str())),
            None => None,
        },
        latest: latest_visible_version(versions),
        tags: tags_of(tags),
    }
}


/// Public metadata of a package: its visible versions highest first, the
/// highest of them as `latest`, and its tags.
#[derive(Debug)]
pub struct PackageMetadata {
    pub org: String,
    pub name: String,
    pub description: Option<String>,
    pub vcs: String,
    pub repo_url: String,
    pub version_scheme: String,
    pub latest: Option<String>,
    pub tags: Vec<String>,
    pub versions: Vec<String>,
}

/// The metadata served for a package and its version rows.
pub fn package_metadata(
    org: &str,
    name: &str,
    description: &Option<String>,
    vcs: &str,
    repo_url: &str,
    version_scheme: &str,
    tags: &StoredTags,
    rows: &[VersionRow],
) -> (r: PackageMetadata)
    ensures
        r.org@ == org@ && r.name@ == name@ && r.vcs@ == vcs@ && r.repo_url@ == repo_url@
            && r.version_scheme@ == version_scheme@,
        crate::config::opt_view(r.description) == crate::config::opt_view(*description),
        texts(r.tags@) == tags_spec(*tags),
        sorted_desc(texts(r.versions@)),
        texts(r.versions@).to_multiset() == visible_texts(rows@).to_multiset(),
        r.latest is None <==> r.versions@.len() == 0,
        r.latest matches Some(v) ==> v@ == r.versions@[0]@,
{
    let versions = visible_versions_desc(rows);
    let latest = if versions.len() > 0 { Some(owned(versions[0].as_str())) } else { None };
    PackageMetadata {
        org: owned(org),
        name: owned(name),
        description: match description {
            Some(d) => Some(owned(d.as_str())),
            None => None,
        },
        vcs: owned(vcs),
        repo_url: owned(repo_url),
        version_scheme: owned(version_scheme),
        latest,
        tags: tags_of(tags),
        versions,
    }
}

} // verus!
