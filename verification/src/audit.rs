//! The tamper-evident audit trail.
//!
//! Every publish, yank/unyank and org claim appends one row naming the token
//! that acted. Each row carries its position in a per-org append-only chain
//! (`seq`), a hash of its own contents (`entry_hash`) and its predecessor's
//! hash (`prev_hash`). Editing a row breaks its own hash; deleting one leaves
//! a `seq` gap; re-linking the tail requires recomputing every later hash.

use vstd::prelude::*;
use crate::auth::Token;
use crate::crypto::{sha256_hex, sha256_hex_spec, uuid_text, uuid_text_spec, lemma_uuid_text_injective};
use crate::text::{chars_eq, chars_of, decimal, owned, push_decimal};

verus! {

/// The role label recorded for an unscoped (admin) token.
pub const ADMIN_ROLE: &'static str = "admin";

/// The role label recorded for a token: `admin` for an unscoped token, its
/// own role otherwise.
pub open spec fn actor_role_spec(token: Token) -> Seq<char> {
    if token.org_id is None { "admin"@ } else { token.role@ }
}

/// The role label to record for `token`.
pub fn actor_role(token: &Token) -> (r: &str)
    ensures
        r@ == actor_role_spec(*token),
{
    if token.org_id.is_none() {
        ADMIN_ROLE
    } else {
        token.role.as_str()
    }
}

/// A mutation of published state that is audited.
#[derive(Debug, Clone, Copy, PartialEq, Eq, Structural)]
pub enum AuditAction {
    Publish,
    Yank,
    Unyank,
    OrgClaim,
}

/// The stored name of an action.
pub open spec fn action_name(a: AuditAction) -> Seq<char> {
    match a {
        AuditAction::Publish => "publish"@,
        AuditAction::Yank => "yank"@,
        AuditAction::Unyank => "unyank"@,
        AuditAction::OrgClaim => "org_claim"@,
    }
}

/// The action a stored name denotes, if any.
pub open spec fn action_of(s: Seq<char>) -> Option<AuditAction> {
    if s == "publish"@ {
        Some(AuditAction::Publish)
    } else if s == "yank"@ {
        Some(AuditAction::Yank)
    } else if s == "unyank"@ {
        Some(AuditAction::Unyank)
    } else if s == "org_claim"@ {
        Some(AuditAction::OrgClaim)
    } else {
        None
    }
}

impl AuditAction {
    pub fn as_str(&self) -> (r: &'static str)
        ensures
            r@ == action_name(*self),
    {
        match self {
            AuditAction::Publish => "publish",
            AuditAction::Yank => "yank",
            AuditAction::Unyank => "unyank",
            AuditAction::OrgClaim => "org_claim",
        }
    }

    /// Parse a stored action name; `None` for anything else.
    pub fn parse(s: &str) -> (r: Option<AuditAction>)
        ensures
            r == action_of(s@),
    {
        let cs = chars_of(s);
        if chars_eq(cs.as_slice(), "publish") {
            Some(AuditAction::Publish)
        } else if chars_eq(cs.as_slice(), "yank") {
            Some(AuditAction::Yank)
        } else if chars_eq(cs.as_slice(), "unyank") {
            Some(AuditAction::Unyank)
        } else if chars_eq(cs.as_slice(), "org_claim") {
            Some(AuditAction::OrgClaim)
        } else {
            None
        }
    }
}

/// Everything an entry's hash covers.
#[derive(Debug)]
pub struct AuditChainInput {
    pub org_id: u128,
    pub seq: u64,
    /// RFC 3339 text of the entry's time, exactly as stored.
    pub at: String,
    pub action: String,
    pub subject: String,
    pub actor_token_id: Option<u128>,
    pub actor_token_name: String,
    pub actor_role: String,
    pub detail: Option<String>,
    /// The predecessor's hash; empty for the first entry of a chain.
    pub prev_hash: String,
}

pub struct AuditChainInputView {
    pub org_id: u128,
    pub seq: u64,
    pub at: Seq<char>,
    pub action: Seq<char>,
    pub subject: Seq<char>,
    pub actor_token_id: Option<u128>,
    pub actor_token_name: Seq<char>,
    pub actor_role: Seq<char>,
    pub detail: Option<Seq<char>>,
    pub prev_hash: Seq<char>,
}

impl View for AuditChainInput {
    type V = AuditChainInputView;

    open spec fn view(&self) -> AuditChainInputView {
        AuditChainInputView {
            org_id: self.org_id,
            seq: self.seq,
            at: self.at@,
            action: self.action@,
            subject: self.subject@,
            actor_token_id: self.actor_token_id,
            actor_token_name: self.actor_token_name@,
            actor_role: self.actor_role@,
            detail: match self.detail { Some(d) => Some(d@), None => None },
            prev_hash: self.prev_hash@,
        }
    }
}

/// The text of an optional field: the value, or nothing.
pub open spec fn opt_text(o: Option<Seq<char>>) -> Seq<char> {
    match o {
        Some(t) => t,
        None => Seq::empty(),
    }
}

/// UUID text of an optional id, or nothing.
pub open spec fn opt_uuid_text(o: Option<u128>) -> Seq<char> {
    match o {
        Some(id) => uuid_text_spec(id),
        None => Seq::empty(),
    }
}

/// The canonical preimage of an entry: one `name=value` line per covered
/// field, in a fixed order, after a version line.
pub open spec fn preimage(i: AuditChainInputView) -> Seq<char> {
    "zed-audit-chain-v1\norg_id="@ + uuid_text_spec(i.org_id)
        + "\nseq="@ + decimal(i.seq as nat)
        + "\nat="@ + i.at
        + "\naction="@ + i.action
        + "\nsubject="@ + i.subject
        + "\nactor_token_id="@ + opt_uuid_text(i.actor_token_id)
        + "\nactor_token_name="@ + i.actor_token_name
        + "\nactor_role="@ + i.actor_role
        + "\ndetail="@ + opt_text(i.detail)
        + "\nprev_hash="@ + i.prev_hash
        + "\n"@
}

/// The hash of an entry: lowercase hex SHA-256 of its preimage's UTF-8.
pub open spec fn digest_spec(i: AuditChainInputView) -> Seq<char> {
    sha256_hex_spec(vstd::utf8::encode_utf8(preimage(i)))
}

/// Render an entry's canonical preimage.
pub fn audit_chain_preimage(input: &AuditChainInput) -> (r: String)
    ensures
        r@ == preimage(input@),
{
    let mut s = owned("zed-audit-chain-v1\norg_id=");
    let org = uuid_text(input.org_id);
    s.append(org.as_str());
    s.append("\nseq=");
    push_decimal(&mut s, input.seq as u128);
    s.append("\nat=");
    s.append(input.at.as_str());
    s.append("\naction=");
    s.append(input.action.as_str());
    s.append("\nsubject=");
    s.append(input.subject.as_str());
    s.append("\nactor_token_id=");
    match input.actor_token_id {
        Some(id) => {
            let t = uuid_text(id);
            s.append(t.as_str());
        },
        None => {},
    }
    s.append("\nactor_token_name=");
    s.append(input.actor_token_name.as_str());
    s.append("\nactor_role=");
    s.append(input.actor_role.as_str());
    s.append("\ndetail=");
    match &input.detail {
        Some(d) => s.append(d.as_str()),
        None => {},
    }
    s.append("\nprev_hash=");
    s.append(input.prev_hash.as_str());
    s.append("\n");
    proof {
        assert(opt_uuid_text(input@.actor_token_id) =~= opt_uuid_text(input@.actor_token_id));
    }
    assert(s@ =~= preimage(input@));
    s
}

/// Hash an entry's canonical preimage (lowercase hex SHA-256).
pub fn entry_digest(input: &AuditChainInput) -> (r: String)
    ensures
        r@ == digest_spec(input@),
        r@.len() == 64,
{
    let pre = audit_chain_preimage(input);
    sha256_hex(pre.as_str().as_bytes())
}

/// One stored audit row. `at` is the RFC 3339 text of the entry's time.
#[derive(Debug)]
pub struct AuditRow {
    pub id: u128,
    pub org_id: u128,
    pub at: String,
    pub action: String,
    pub subject: String,
    pub actor_token_id: Option<u128>,
    pub actor_token_name: String,
    pub actor_role: String,
    pub detail: Option<String>,
    /// Position in the org's chain; 0 for rows written before chaining.
    pub seq: i64,
    /// Empty for rows written before chaining.
    pub entry_hash: String,
    pub prev_hash: Option<String>,
}

pub struct AuditRowView {
    pub id: u128,
    pub org_id: u128,
    pub at: Seq<char>,
    pub action: Seq<char>,
    pub subject: Seq<char>,
    pub actor_token_id: Option<u128>,
    pub actor_token_name: Seq<char>,
    pub actor_role: Seq<char>,
    pub detail: Option<Seq<char>>,
    pub seq: i64,
    pub entry_hash: Seq<char>,
    pub prev_hash: Option<Seq<char>>,
}

impl View for AuditRow {
    type V = AuditRowView;

    open spec fn view(&self) -> AuditRowView {
        AuditRowView {
            id: self.id,
            org_id: self.org_id,
            at: self.at@,
            action: self.action@,
            subject: self.subject@,
            actor_token_id: self.actor_token_id,
            actor_token_name: self.actor_token_name@,
            actor_role: self.actor_role@,
            detail: match self.detail { Some(d) => Some(d@), None => None },
            seq: self.seq,
            entry_hash: self.entry_hash@,
            prev_hash: match self.prev_hash { Some(p) => Some(p@), None => None },
        }
    }
}

/// The hash input of a stored row against a given predecessor hash.
pub open spec fn row_input(r: AuditRowView, prev: Seq<char>) -> AuditChainInputView {
    AuditChainInputView {
        org_id: r.org_id,
        seq: r.seq as u64,
        at: r.at,
        action: r.action,
        subject: r.subject,
        actor_token_id: r.actor_token_id,
        actor_token_name: r.actor_token_name,
        actor_role: r.actor_role,
        detail: r.detail,
        prev_hash: prev,
    }
}

/// The hash a stored row should have, given its predecessor's hash.
pub open spec fn expected_hash_spec(r: AuditRowView, prev: Seq<char>) -> Seq<char> {
    digest_spec(row_input(r, prev))
}

/// Every recorded field of an entry is covered by its hash: the hash an
/// entry should have is the digest of the canonical input that holds the
/// entry's own org, position, time, action, subject, acting token id, token
/// name, role and detail, with its predecessor's hash.
pub proof fn lemma_expected_hash_covers_every_field(r: AuditRowView, prev: Seq<char>)
    ensures
        expected_hash_spec(r, prev) == digest_spec((AuditChainInputView {
            org_id: r.org_id,
            seq: r.seq as u64,
            at: r.at,
            action: r.action,
            subject: r.subject,
            actor_token_id: r.actor_token_id,
            actor_token_name: r.actor_token_name,
            actor_role: r.actor_role,
            detail: r.detail,
            prev_hash: prev,
        })),
{
}

/// The preimage up to the acting token's id.
spec fn preimage_head(i: AuditChainInputView) -> Seq<char> {
    "zed-audit-chain-v1\norg_id="@ + uuid_text_spec(i.org_id)
        + "\nseq="@ + decimal(i.seq as nat)
        + "\nat="@ + i.at
        + "\naction="@ + i.action
        + "\nsubject="@ + i.subject
        + "\nactor_token_id="@
}

/// The preimage after the acting token's id.
spec fn preimage_tail(i: AuditChainInputView) -> Seq<char> {
    "\nactor_token_name="@ + i.actor_token_name
        + "\nactor_role="@ + i.actor_role
        + "\ndetail="@ + opt_text(i.detail)
        + "\nprev_hash="@ + i.prev_hash
        + "\n"@
}

/// Hashed inputs that differ only in the acting token's id have different
/// canonical preimages: which token acted is part of what is hashed.
pub proof fn lemma_preimage_tells_token_ids_apart(i1: AuditChainInputView, i2: AuditChainInputView)
    requires
        i2 == (AuditChainInputView { actor_token_id: i2.actor_token_id, ..i1 }),
        i1.actor_token_id != i2.actor_token_id,
    ensures
        preimage(i1) != preimage(i2),
{
    let a = preimage_head(i1);
    let b = preimage_tail(i1);
    let x1 = opt_uuid_text(i1.actor_token_id);
    let x2 = opt_uuid_text(i2.actor_token_id);
    assert(preimage_head(i2) == a);
    assert(preimage_tail(i2) == b);
    assert(preimage(i1) =~= a + x1 + b);
    assert(preimage(i2) =~= a + x2 + b);
    if preimage(i1) == preimage(i2) {
        let p = preimage(i1);
        assert(x1.len() == x2.len());
        assert(x1 =~= p.subrange(a.len() as int, (a.len() + x1.len()) as int));
        assert(x2 =~= p.subrange(a.len() as int, (a.len() + x2.len()) as int));
        match (i1.actor_token_id, i2.actor_token_id) {
            (Some(u), Some(v)) => {
                lemma_uuid_text_injective(u, v);
            },
            (Some(u), None) => {
                lemma_uuid_text_injective(u, u);
            },
            (None, Some(v)) => {
                lemma_uuid_text_injective(v, v);
            },
            (None, None) => {},
        }
    }
}

/// Re-attributing an entry to another token changes what its hash covers:
/// two entries that differ only in the acting token's id have different
/// canonical preimages against the same predecessor.
pub proof fn lemma_reattribution_changes_the_hashed_text(r1: AuditRowView, r2: AuditRowView, prev: Seq<char>)
    requires
        r2 == (AuditRowView { actor_token_id: r2.actor_token_id, ..r1 }),
        r1.actor_token_id != r2.actor_token_id,
    ensures
        preimage(row_input(r1, prev)) != preimage(row_input(r2, prev)),
{
    lemma_expected_hash_covers_every_field(r1, prev);
    lemma_preimage_tells_token_ids_apart(row_input(r1, prev), row_input(r2, prev));
}

fn clone_opt(o: &Option<String>) -> (r: Option<String>)
    ensures
        match (o, r) {
            (Some(a), Some(b)) => a@ == b@,
            (None, None) => true,
            _ => false,
        },
{
    match o {
        Some(s) => Some(s.clone()),
        None => None,
    }
}

/// Recompute the hash a stored row should have, given its predecessor's
/// hash. Shared by the append path and the verifier.
pub fn expected_hash(row: &AuditRow, prev_hash: &str) -> (r: String)
    ensures
        r@ == expected_hash_spec(row@, prev_hash@),
        r@.len() == 64,
{
    let input = AuditChainInput {
        org_id: row.org_id,
        seq: row.seq as u64,
        at: row.at.clone(),
        action: row.action.clone(),
        subject: row.subject.clone(),
        actor_token_id: row.actor_token_id,
        actor_token_name: row.actor_token_name.clone(),
        actor_role: row.actor_role.clone(),
        detail: clone_opt(&row.detail),
        prev_hash: owned(prev_hash),
    };
    assert(input@ == row_input(row@, prev_hash@));
    entry_digest(&input)
}

/// Why a chain failed to verify.
#[derive(Debug, Clone, Copy, PartialEq, Eq, Structural)]
pub enum ChainProblem {
    /// An entry's contents no longer hash to its recorded `entry_hash`.
    HashMismatch,
    /// An entry's `prev_hash` does not match its predecessor's hash.
    BrokenLink,
    /// A `seq` is missing: an entry was deleted.
    SequenceGap,
}

pub open spec fn problem_name(p: ChainProblem) -> Seq<char> {
    match p {
        ChainProblem::HashMismatch => "hash_mismatch"@,
        ChainProblem::BrokenLink => "broken_link"@,
        ChainProblem::SequenceGap => "sequence_gap"@,
    }
}

impl ChainProblem {
    pub fn as_str(&self) -> (r: &'static str)
        ensures
            r@ == problem_name(*self),
    {
        match self {
            ChainProblem::HashMismatch => "hash_mismatch",
            ChainProblem::BrokenLink => "broken_link",
            ChainProblem::SequenceGap => "sequence_gap",
        }
    }
}

/// The outcome of walking a chain.
#[derive(Debug, Clone, PartialEq, Eq)]
pub struct ChainReport {
    pub intact: bool,
    pub entries_checked: u64,
    pub first_bad_seq: Option<i64>,
    pub problem: Option<ChainProblem>,
    pub head_hash: Option<String>,
}

pub struct ChainReportView {
    pub intact: bool,
    pub entries_checked: nat,
    pub first_bad_seq: Option<i64>,
    pub problem: Option<ChainProblem>,
    pub head_hash: Option<Seq<char>>,
}

impl View for ChainReport {
    type V = ChainReportView;

    open spec fn view(&self) -> ChainReportView {
        ChainReportView {
            intact: self.intact,
            entries_checked: self.entries_checked as nat,
            first_bad_seq: self.first_bad_seq,
            problem: self.problem,
            head_hash: match self.head_hash { Some(h) => Some(h@), None => None },
        }
    }
}

/// Whether a row takes part in the chain: rows written before chaining
/// (`seq == 0`, empty hash) are left out.
pub open spec fn is_chained(r: AuditRowView) -> bool {
    r.seq > 0 && r.entry_hash.len() > 0
}

/// The chained rows of `rows`, in order.
pub open spec fn chain_of(rows: Seq<AuditRowView>) -> Seq<AuditRowView>
    decreases rows.len(),
{
    if rows.len() == 0 {
        Seq::empty()
    } else {
        let c = chain_of(rows.drop_last());
        if is_chained(rows.last()) { c.push(rows.last()) } else { c }
    }
}

/// The hash entry `k` of chain `c` must link to: its predecessor's, or
/// nothing for the first entry.
pub open spec fn link_prev(c: Seq<AuditRowView>, k: int) -> Seq<char> {
    if k == 0 { Seq::empty() } else { c[k - 1].entry_hash }
}

/// Entry `k` directly follows its predecessor's position.
pub open spec fn seq_follows(c: Seq<AuditRowView>, k: int) -> bool {
    k == 0 || c[k].seq == c[k - 1].seq + 1
}

/// Entry `k`'s recorded hash is its content hashed against its
/// predecessor's hash.
pub open spec fn hash_holds(c: Seq<AuditRowView>, k: int) -> bool {
    expected_hash_spec(c[k], link_prev(c, k)) == c[k].entry_hash
}

pub open spec fn link_ok(c: Seq<AuditRowView>, k: int) -> bool {
    seq_follows(c, k) && hash_holds(c, k)
}

/// The first `n` entries of `c` are all correctly linked.
pub open spec fn links_ok_below(c: Seq<AuditRowView>, n: int) -> bool {
    forall|k: int| 0 <= k < n ==> #[trigger] link_ok(c, k)
}

/// `b` is the first badly linked entry of `c`.
pub open spec fn first_broken(c: Seq<AuditRowView>, b: int) -> bool {
    0 <= b < c.len() && links_ok_below(c, b) && !link_ok(c, b)
}

/// The report for a chain with no badly linked entry.
pub open spec fn intact_report(c: Seq<AuditRowView>) -> ChainReportView {
    ChainReportView {
        intact: true,
        entries_checked: c.len(),
        first_bad_seq: None,
        problem: None,
        head_hash: if c.len() == 0 { None } else { Some(c.last().entry_hash) },
    }
}

/// The report for a chain whose first badly linked entry is `b`: a missing
/// position is a gap at the position that should have come next; otherwise
/// the entry is a broken link if it hashes correctly against its own
/// recorded predecessor, and an edited entry if it does not.
pub open spec fn broken_report(c: Seq<AuditRowView>, b: int) -> ChainReportView {
    ChainReportView {
        intact: false,
        entries_checked: b as nat,
        first_bad_seq: if !seq_follows(c, b) {
            Some((c[b - 1].seq + 1) as i64)
        } else {
            Some(c[b].seq)
        },
        problem: if !seq_follows(c, b) {
            Some(ChainProblem::SequenceGap)
        } else if expected_hash_spec(c[b], opt_text(c[b].prev_hash)) == c[b].entry_hash {
            Some(ChainProblem::BrokenLink)
        } else {
            Some(ChainProblem::HashMismatch)
        },
        head_hash: if b == 0 { None } else { Some(c[b - 1].entry_hash) },
    }
}

/// What walking `rows` reports.
pub open spec fn chain_report(rows: Seq<AuditRowView>) -> ChainReportView {
    let c = chain_of(rows);
    if exists|b: int| first_broken(c, b) {
        broken_report(c, choose|b: int| first_broken(c, b))
    } else {
        intact_report(c)
    }
}

/// The views of a slice of rows.
pub open spec fn rows_view(rows: Seq<AuditRow>) -> Seq<AuditRowView> {
    rows.map_values(|r: AuditRow| r@)
}

proof fn lemma_first_broken_unique(c: Seq<AuditRowView>, b1: int, b2: int)
    requires
        first_broken(c, b1),
        first_broken(c, b2),
    ensures
        b1 == b2,
{
    if b1 < b2 {
        assert(link_ok(c, b1));
    } else if b2 < b1 {
        assert(link_ok(c, b2));
    }
}

/// The chained rows of a prefix of `rows` are a prefix of its chained rows.
proof fn lemma_chain_prefix(rows: Seq<AuditRowView>, i: int)
    requires
        0 <= i <= rows.len(),
    ensures
        chain_of(rows.take(i)).len() <= chain_of(rows).len(),
        chain_of(rows).take(chain_of(rows.take(i)).len() as int) == chain_of(rows.take(i)),
    decreases rows.len(),
{
    if i == rows.len() {
        assert(rows.take(i) =~= rows);
        assert(chain_of(rows).take(chain_of(rows).len() as int) =~= chain_of(rows));
    } else {
        let d = rows.drop_last();
        assert(rows.take(i) =~= d.take(i));
        lemma_chain_prefix(d, i);
        let k = chain_of(d.take(i)).len() as int;
        if is_chained(rows.last()) {
            assert(chain_of(rows) == chain_of(d).push(rows.last()));
            assert(chain_of(rows).take(k) =~= chain_of(d).take(k));
        } else {
            assert(chain_of(rows) == chain_of(d));
        }
    }
}

/// Walk `rows` (ascending `seq`) and decide whether the chain is intact.
///
/// Rows written before the chain existed (`seq == 0`, empty hash) are
/// skipped rather than failed.
pub fn verify_chain(rows: &[AuditRow]) -> (r: ChainReport)
    ensures
        r@ == chain_report(rows_view(rows@)),
{
    let ghost rv = rows_view(rows@);
    let ghost c = chain_of(rv);
    let mut prev_hash = String::new();
    let mut expected_seq: Option<i128> = None;
    let mut checked: u64 = 0;
    let mut head: Option<String> = None;
    let mut i: usize = 0;
    let ghost mut k: int = 0;
    proof {
        assert(rv.take(0) =~= Seq::<AuditRowView>::empty());
        assert(chain_of(rv.take(0)) =~= Seq::<AuditRowView>::empty());
        assert(c.take(0) =~= Seq::<AuditRowView>::empty());
    }
    while i < rows.len()
        invariant
            rv == rows_view(rows@),
            c == chain_of(rv),
            rv.len() == rows@.len(),
            0 <= i <= rows@.len(),
            0 <= k <= c.len(),
            chain_of(rv.take(i as int)) == c.take(k),
            chain_of(rv.take(i as int)).len() == k,
            links_ok_below(c, k),
            checked == k,
            k == 0 ==> prev_hash@ == Seq::<char>::empty() && expected_seq is None && head is None,
            k > 0 ==> prev_hash@ == c[k - 1].entry_hash && expected_seq == Some((c[k - 1].seq + 1) as i128)
                && (head matches Some(h) && h@ == c[k - 1].entry_hash),
        decreases rows.len() - i,
    {
        let row = &rows[i];
        proof {
            assert(rv[i as int] == row@);
            assert(rv.take(i + 1).drop_last() =~= rv.take(i as int));
            assert(rv.take(i + 1).last() == row@);
            lemma_chain_prefix(rv, i + 1);
            lemma_chain_len(rv);
        }
        let chained = row.seq > 0 && !row.entry_hash.as_str().is_empty();
        if chained {
            proof {
                assert(is_chained(row@));
                assert(chain_of(rv.take(i + 1)) == c.take(k).push(row@));
                assert(c.take(k + 1) == chain_of(rv.take(i + 1)));
                assert(c[k] == c.take(k + 1)[k]);
                assert(c[k] == row@);
            }
            match expected_seq {
                Some(want) => {
                    if (row.seq as i128) != want {
                        proof {
                            assert(!seq_follows(c, k));
                            assert(first_broken(c, k));
                            let b = choose|b: int| first_broken(c, b);
                            lemma_first_broken_unique(c, b, k);
                        }
                        return ChainReport {
                            intact: false,
                            entries_checked: checked,
                            first_bad_seq: Some(want as i64),
                            problem: Some(ChainProblem::SequenceGap),
                            head_hash: head,
                        };
                    }
                },
                None => {},
            }
            assert(seq_follows(c, k));
            let h = expected_hash(row, prev_hash.as_str());
            if !(h == row.entry_hash) {
                let own = match &row.prev_hash {
                    Some(p) => expected_hash(row, p.as_str()),
                    None => {
                        proof { reveal_strlit(""); }
                        expected_hash(row, "")
                    },
                };
                proof {
                    assert(opt_text(row@.prev_hash) =~= opt_text(row@.prev_hash));
                    if row.prev_hash.is_none() {
                        assert(""@ =~= Seq::<char>::empty());
                    }
                }
                let problem = if own == row.entry_hash {
                    ChainProblem::BrokenLink
                } else {
                    ChainProblem::HashMismatch
                };
                proof {
                    assert(!hash_holds(c, k));
                    assert(first_broken(c, k));
                    let b = choose|b: int| first_broken(c, b);
                    lemma_first_broken_unique(c, b, k);
                }
                return ChainReport {
                    intact: false,
                    entries_checked: checked,
                    first_bad_seq: Some(row.seq),
                    problem: Some(problem),
                    head_hash: head,
                };
            }
            proof {
                assert(link_ok(c, k));
                assert forall|j: int| 0 <= j < k + 1 implies #[trigger] link_ok(c, j) by {
                    if j < k {
                        assert(link_ok(c, j));
                    }
                }
            }
            prev_hash = row.entry_hash.clone();
            head = Some(row.entry_hash.clone());
            expected_seq = Some(row.seq as i128 + 1);
            checked = checked + 1;
            proof {
                k = k + 1;
            }
        } else {
            proof {
                assert(!is_chained(row@));
                assert(chain_of(rv.take(i + 1)) == chain_of(rv.take(i as int)));
            }
        }
        i = i + 1;
    }
    proof {
        assert(rv.take(rv.len() as int) =~= rv);
        assert(k == c.len());
        assert(c.take(k) =~= c);
        assert(!exists|b: int| first_broken(c, b));
    }
    ChainReport { intact: true, entries_checked: checked, first_bad_seq: None, problem: None, head_hash: head }
}

/// A row list has no more chained rows than rows.
proof fn lemma_chain_len(rows: Seq<AuditRowView>)
    ensures
        chain_of(rows).len() <= rows.len(),
    decreases rows.len(),
{
    if rows.len() > 0 {
        lemma_chain_len(rows.drop_last());
    }
}

/// Every row is chained and every link holds: the shape of a chain that
/// only the append path ever wrote.
pub open spec fn well_linked(rows: Seq<AuditRowView>) -> bool {
    &&& forall|i: int| 0 <= i < rows.len() ==> #[trigger] is_chained(rows[i])
    &&& links_ok_below(rows, rows.len() as int)
}

proof fn lemma_chain_of_all_chained(rows: Seq<AuditRowView>)
    requires
        forall|i: int| 0 <= i < rows.len() ==> #[trigger] is_chained(rows[i]),
    ensures
        chain_of(rows) == rows,
    decreases rows.len(),
{
    if rows.len() > 0 {
        let d = rows.drop_last();
        assert forall|i: int| 0 <= i < d.len() implies #[trigger] is_chained(d[i]) by {
            assert(d[i] == rows[i]);
        }
        lemma_chain_of_all_chained(d);
        assert(is_chained(rows[rows.len() - 1]));
        assert(d.push(rows.last()) =~= rows);
    }
}

proof fn lemma_no_break_is_intact(rows: Seq<AuditRowView>)
    requires
        links_ok_below(chain_of(rows), chain_of(rows).len() as int),
    ensures
        chain_report(rows) == intact_report(chain_of(rows)),
{
    let c = chain_of(rows);
    assert(!exists|b: int| first_broken(c, b));
}

/// An untouched chain verifies: when every row was chained by the append
/// path, the walk reports it intact, counts every row, and names the last
/// row's hash as the head.
pub proof fn lemma_untouched_chain_verifies(rows: Seq<AuditRowView>)
    requires
        well_linked(rows),
    ensures
        chain_report(rows).intact,
        chain_report(rows).entries_checked == rows.len(),
        chain_report(rows).first_bad_seq is None,
        chain_report(rows).problem is None,
        chain_report(rows).head_hash == if rows.len() == 0 { None } else { Some(rows.last().entry_hash) },
{
    lemma_chain_of_all_chained(rows);
    lemma_no_break_is_intact(rows);
}

/// Truncating the tail cannot be caught by the chain alone: every prefix of
/// an untouched chain verifies, with the prefix's last hash as its head
/// (which is why the head must be anchored outside the database).
pub proof fn lemma_truncated_chain_still_verifies(rows: Seq<AuditRowView>, m: int)
    requires
        well_linked(rows),
        0 <= m <= rows.len(),
    ensures
        chain_report(rows.take(m)).intact,
        chain_report(rows.take(m)).entries_checked == m,
        chain_report(rows.take(m)).head_hash == if m == 0 { None } else { Some(rows[m - 1].entry_hash) },
{
    let p = rows.take(m);
    assert forall|i: int| 0 <= i < p.len() implies #[trigger] is_chained(p[i]) by {
        assert(p[i] == rows[i]);
    }
    assert forall|k: int| 0 <= k < m implies #[trigger] link_ok(p, k) by {
        assert(link_ok(rows, k));
        assert(p[k] == rows[k]);
        if k > 0 {
            assert(p[k - 1] == rows[k - 1]);
        }
    }
    lemma_untouched_chain_verifies(p);
}

/// Truncating the tail cannot be caught by the chain alone, whatever the
/// log holds (legacy rows included): when the walk of a log is intact, the
/// walk of each of its prefixes is intact too. It reports the prefix's
/// chained rows, the leading part of the log's chain, with the last of them
/// as its head, so only the head moves.
pub proof fn lemma_prefix_of_intact_log_verifies(rows: Seq<AuditRowView>, k: int)
    requires
        chain_report(rows).intact,
        0 <= k <= rows.len(),
    ensures
        chain_report(rows.take(k)).intact,
        chain_report(rows.take(k)) == intact_report(chain_of(rows.take(k))),
        chain_of(rows.take(k)) == chain_of(rows).take(chain_of(rows.take(k)).len() as int),
{
    lemma_intact_links_all(rows);
    lemma_chain_prefix(rows, k);
    let c = chain_of(rows);
    let p = chain_of(rows.take(k));
    let m = p.len() as int;
    assert forall|j: int| 0 <= j < m implies #[trigger] link_ok(p, j) by {
        assert(link_ok(c, j));
        assert(p[j] == c[j]);
        if j > 0 {
            assert(p[j - 1] == c[j - 1]);
        }
    }
    lemma_no_break_is_intact(rows.take(k));
}

/// Deleting an entry is detected: removing any entry but the first or the
/// last from an untouched chain is reported as a sequence gap at the removed
/// position, after the intact prefix before it.
pub proof fn lemma_deleted_entry_is_a_gap(rows: Seq<AuditRowView>, k: int)
    requires
        well_linked(rows),
        0 < k < rows.len() - 1,
    ensures
        !chain_report(rows.remove(k)).intact,
        chain_report(rows.remove(k)).problem == Some(ChainProblem::SequenceGap),
        chain_report(rows.remove(k)).first_bad_seq == Some(rows[k].seq),
        chain_report(rows.remove(k)).entries_checked == k,
{
    let d = rows.remove(k);
    assert forall|i: int| 0 <= i < d.len() implies #[trigger] is_chained(d[i]) by {
        if i < k {
            assert(d[i] == rows[i]);
        } else {
            assert(d[i] == rows[i + 1]);
        }
    }
    lemma_chain_of_all_chained(d);
    assert forall|j: int| 0 <= j < k implies #[trigger] link_ok(d, j) by {
        assert(link_ok(rows, j));
        assert(d[j] == rows[j]);
        if j > 0 {
            assert(d[j - 1] == rows[j - 1]);
        }
    }
    assert(link_ok(rows, k));
    assert(link_ok(rows, k + 1));
    assert(d[k] == rows[k + 1]);
    assert(d[k - 1] == rows[k - 1]);
    assert(!seq_follows(d, k));
    assert(first_broken(d, k));
    let b = choose|b: int| first_broken(d, b);
    lemma_first_broken_unique(d, b, k);
}

/// `new` is the entry the append path writes after `tip` (the org's row with
/// the highest position, if any): the next position, a link to the tip's
/// hash when it has one, and a 64-digit hash of its content against that
/// link.
pub open spec fn appended_to(tip: Option<AuditRowView>, new: AuditRowView) -> bool {
    let tip_seq: int = match tip { Some(t) => t.seq as int, None => 0 };
    let link: Option<Seq<char>> = match tip {
        Some(t) => if t.entry_hash.len() > 0 { Some(t.entry_hash) } else { None },
        None => None,
    };
    &&& new.seq == tip_seq + 1
    &&& new.prev_hash == link
    &&& new.entry_hash == expected_hash_spec(new, opt_text(link))
    &&& new.entry_hash.len() == 64
}

/// With no first broken entry, the links below `n` holding extends to all.
proof fn lemma_links_extend(c: Seq<AuditRowView>, n: int)
    requires
        0 <= n <= c.len(),
        links_ok_below(c, n),
        !exists|b: int| first_broken(c, b),
    ensures
        links_ok_below(c, c.len() as int),
    decreases c.len() - n,
{
    if n < c.len() {
        assert(!first_broken(c, n));
        assert forall|k: int| 0 <= k < n + 1 implies #[trigger] link_ok(c, k) by {
            if k < n {
                assert(link_ok(c, k));
            }
        }
        lemma_links_extend(c, n + 1);
    }
}

/// A walk that found no first broken entry found every entry linked.
proof fn lemma_intact_links_all(rows: Seq<AuditRowView>)
    requires
        chain_report(rows).intact,
    ensures
        links_ok_below(chain_of(rows), chain_of(rows).len() as int),
        chain_report(rows) == intact_report(chain_of(rows)),
{
    let c = chain_of(rows);
    assert(!exists|b: int| first_broken(c, b));
    lemma_links_extend(c, 0);
}

/// A row list none of whose rows is chained has an empty chain.
proof fn lemma_chain_of_none_chained(rows: Seq<AuditRowView>)
    requires
        forall|i: int| 0 <= i < rows.len() ==> !#[trigger] is_chained(rows[i]),
    ensures
        chain_of(rows).len() == 0,
    decreases rows.len(),
{
    if rows.len() > 0 {
        let d = rows.drop_last();
        assert forall|i: int| 0 <= i < d.len() implies !#[trigger] is_chained(d[i]) by {
            assert(d[i] == rows[i]);
        }
        lemma_chain_of_none_chained(d);
        assert(!is_chained(rows[rows.len() - 1]));
    }
}

/// Appending keeps an intact chain intact, with the new entry as its head:
/// the entry the append path writes after the last row (the tip) of rows
/// whose walk is intact extends the chain by one entry, when the tip is
/// chained, or when no row is chained yet and the tip is a legacy row
/// (unhashed, at a position of at least 0) or there are no rows.
pub proof fn lemma_append_keeps_chain_intact(rows: Seq<AuditRowView>, new: AuditRowView)
    requires
        chain_report(rows).intact,
        rows.len() > 0 ==> is_chained(rows.last()) || (
            (forall|i: int| 0 <= i < rows.len() ==> !#[trigger] is_chained(rows[i]))
            && rows.last().entry_hash.len() == 0 && rows.last().seq >= 0),
        appended_to(if rows.len() == 0 { None } else { Some(rows.last()) }, new),
    ensures
        chain_report(rows.push(new)).intact,
        chain_report(rows.push(new)).entries_checked == chain_report(rows).entries_checked + 1,
        chain_report(rows.push(new)).head_hash == Some(new.entry_hash),
{
    let p = rows.push(new);
    let c = chain_of(rows);
    lemma_intact_links_all(rows);
    assert(p.drop_last() =~= rows);
    assert(p.last() == new);
    assert(is_chained(new));
    assert(chain_of(p) == c.push(new));
    let cp = c.push(new);
    let n = c.len() as int;
    if rows.len() > 0 && is_chained(rows.last()) {
        assert(rows.drop_last().push(rows.last()) =~= rows);
        assert(c == chain_of(rows.drop_last()).push(rows.last()));
        assert(c.last() == rows.last());
    } else if rows.len() > 0 {
        lemma_chain_of_none_chained(rows);
    }
    assert forall|k: int| 0 <= k < cp.len() implies #[trigger] link_ok(cp, k) by {
        if k < n {
            assert(link_ok(c, k));
            assert(cp[k] == c[k]);
            if k > 0 {
                assert(cp[k - 1] == c[k - 1]);
            }
        } else {
            assert(cp[k] == new);
            if k > 0 {
                assert(cp[k - 1] == c[n - 1]);
            } else {
                assert(opt_text(None::<Seq<char>>) =~= Seq::<char>::empty());
            }
        }
    }
    lemma_no_break_is_intact(p);
}

/// Appending keeps an untouched chain untouched: the entry the append path
/// writes after the last row of a chain that only the append path wrote (or
/// as the first row of an empty one) extends it to a longer such chain,
/// whose head is the new entry.
pub proof fn lemma_append_keeps_chain_untouched(rows: Seq<AuditRowView>, new: AuditRowView)
    requires
        well_linked(rows),
        appended_to(if rows.len() == 0 { None } else { Some(rows.last()) }, new),
    ensures
        well_linked(rows.push(new)),
        chain_report(rows.push(new)).intact,
        chain_report(rows.push(new)).entries_checked == rows.len() + 1,
        chain_report(rows.push(new)).head_hash == Some(new.entry_hash),
{
    let p = rows.push(new);
    let n = rows.len() as int;
    if n > 0 {
        assert(is_chained(rows[n - 1]));
    }
    assert forall|i: int| 0 <= i < p.len() implies #[trigger] is_chained(p[i]) by {
        if i < n {
            assert(p[i] == rows[i]);
        }
    }
    assert forall|k: int| 0 <= k < p.len() implies #[trigger] link_ok(p, k) by {
        if k < n {
            assert(link_ok(rows, k));
            assert(p[k] == rows[k]);
            if k > 0 {
                assert(p[k - 1] == rows[k - 1]);
            }
        } else {
            assert(p[k] == new);
            if k > 0 {
                assert(p[k - 1] == rows[n - 1]);
            } else {
                assert(opt_text(None::<Seq<char>>) =~= Seq::<char>::empty());
            }
        }
    }
    lemma_untouched_chain_verifies(p);
}

/// The RFC 3339 text `chrono` renders for the UTC instant `secs` seconds and
/// `nanos` nanoseconds after the Unix epoch, or `None` when that instant is
/// out of `chrono`'s range.
pub uninterp spec fn rfc3339_spec(secs: i64, nanos: u32) -> Option<Seq<char>>;

/// A clock reading holds a sub-second part below one second.
pub open spec fn reading_ok(r: Option<(u64, u32)>) -> bool {
    r matches Some(t) ==> t.1 < 1_000_000_000
}

/// Calls `std::time::UNIX_EPOCH.elapsed()`: the time since the Unix epoch as
/// whole seconds and sub-second nanoseconds, or `None` when the system clock
/// reads earlier than the epoch (the call's documented error). The reading
/// depends on the clock; the contract states only what holds of every
/// reading: `Duration::subsec_nanos` is always below one billion.
#[verifier::external_body]
fn clock_since_epoch() -> (r: Option<(u64, u32)>)
    ensures
        reading_ok(r),
{
    std::time::UNIX_EPOCH.elapsed().ok().map(|d| (d.as_secs(), d.subsec_nanos()))
}

/// Calls `chrono::DateTime::from_timestamp(secs, nanos)` and renders the
/// instant with `to_rfc3339()`. The contract names the outcome, and states
/// what `from_timestamp`'s source shows for the years 1970 to 9999: every
/// such instant with a sub-second part below one second is in range. The
/// rendering itself is not stated.
#[verifier::external_body]
fn rfc3339_utc(secs: i64, nanos: u32) -> (r: Option<String>)
    ensures
        crate::air::opt_view(r) == rfc3339_spec(secs, nanos),
        0 <= secs <= LAST_SECOND_OF_9999 && nanos < 1_000_000_000 ==> r is Some,
{
    chrono::DateTime::from_timestamp(secs, nanos).map(|t| t.to_rfc3339())
}

/// The instant a chain entry records for a clock reading: the same second,
/// with the sub-second part cut to whole microseconds, the precision the
/// database keeps, so that the text that was hashed is the text a later
/// read of the stored time renders.
pub fn chain_instant(secs: i64, nanos: u32) -> (r: (i64, u32))
    ensures
        r.0 == secs,
        r.1 == nanos - nanos % 1000,
        r.1 % 1000 == 0,
        r.1 <= nanos,
{
    (secs, nanos - nanos % 1000)
}

/// The last second of the year 9999, in seconds since the Unix epoch.
pub const LAST_SECOND_OF_9999: i64 = 253402300799;

/// The RFC 3339 time a chain entry records for a clock reading (seconds and
/// nanoseconds since the epoch): the reading cut to whole microseconds. No
/// text for a clock before the epoch (`None` reading) or past `i64` seconds;
/// always a text for a reading in the years 1970 to 9999.
pub fn chain_timestamp_at(reading: Option<(u64, u32)>) -> (r: Option<String>)
    requires
        reading_ok(reading),
    ensures
        chain_timestamp_at_spec(reading, r),
{
    match reading {
        None => None,
        Some((secs, nanos)) => {
            if secs > 9223372036854775807u64 {
                None
            } else {
                let (s, n) = chain_instant(secs as i64, nanos);
                rfc3339_utc(s, n)
            }
        },
    }
}

/// The RFC 3339 time of a new chain entry: the current time cut to whole
/// microseconds (see `chain_timestamp_at`), none when the clock reads
/// before the epoch.
pub fn chain_timestamp() -> (r: Option<String>)
    ensures
        exists|reading: Option<(u64, u32)>| reading_ok(reading) && #[trigger] chain_timestamp_at_spec(reading, r),
{
    let reading = clock_since_epoch();
    let r = chain_timestamp_at(reading);
    assert(chain_timestamp_at_spec(reading, r));
    r
}

/// `r` is what `chain_timestamp_at` gives for `reading`.
pub open spec fn chain_timestamp_at_spec(reading: Option<(u64, u32)>, r: Option<String>) -> bool {
    match reading {
        None => r is None,
        Some((secs, nanos)) => if secs > i64::MAX {
            r is None
        } else {
            crate::air::opt_view(r) == rfc3339_spec(secs as i64, (nanos - nanos % 1000) as u32)
                && (secs <= LAST_SECOND_OF_9999 ==> r is Some)
        },
    }
}

/// Build the next chain entry after `tip`, the org's row with the highest
/// position (or none for an org without rows). `id` and `at` are the new
/// row's id and RFC 3339 time.
pub fn next_row(
    id: u128,
    org_id: u128,
    at: String,
    action: AuditAction,
    subject: String,
    token: &Token,
    detail: Option<String>,
    tip: Option<&AuditRow>,
) -> (r: AuditRow)
    requires
        tip matches Some(t) ==> t.seq < i64::MAX,
    ensures
        r@.id == id,
        r@.org_id == org_id,
        r@.at == at@,
        r@.action == action_name(action),
        r@.subject == subject@,
        r@.actor_token_id == Some(token.id),
        r@.actor_token_name == token.name@,
        r@.actor_role == actor_role_spec(*token),
        r@.detail == match detail { Some(d) => Some(d@), None => None::<Seq<char>> },
        appended_to(match tip { Some(t) => Some(t@), None => None }, r@),
{
    let seq: i64 = match tip {
        Some(t) => t.seq + 1,
        None => 1,
    };
    let prev_hash: Option<String> = match tip {
        Some(t) => if t.entry_hash.as_str().is_empty() { None } else { Some(t.entry_hash.clone()) },
        None => None,
    };
    let mut row = AuditRow {
        id,
        org_id,
        at,
        action: owned(action.as_str()),
        subject,
        actor_token_id: Some(token.id),
        actor_token_name: token.name.clone(),
        actor_role: owned(actor_role(token)),
        detail,
        seq,
        entry_hash: String::new(),
        prev_hash,
    };
    let h = match &row.prev_hash {
        Some(p) => expected_hash(&row, p.as_str()),
        None => {
            proof { reveal_strlit(""); }
            expected_hash(&row, "")
        },
    };
    proof {
        if row.prev_hash.is_none() {
            assert(""@ =~= Seq::<char>::empty());
        }
    }
    let ghost before = row@;
    row.entry_hash = h;
    proof {
        assert(row_input(row@, opt_text(row@.prev_hash)) == row_input(before, opt_text(before.prev_hash)));
    }
    row
}


/// How many times an append is tried when concurrent writers keep taking the
/// position it planned to use.
pub const APPEND_ATTEMPTS: usize = 4;

/// How one append attempt ended.
#[derive(Debug, Clone, Copy, PartialEq, Eq, Structural)]
pub enum AppendOutcome {
    /// The row was inserted.
    Appended,
    /// Another writer took the planned position first.
    PositionTaken,
    /// Any other failure.
    Failed,
}

/// What follows an append attempt.
#[derive(Debug, Clone, Copy, PartialEq, Eq, Structural)]
pub enum AppendNext {
    /// The entry is recorded.
    Done,
    /// Re-read the chain tip and try again.
    Retry,
    /// Stop and log the entry (the audited mutation itself has succeeded).
    GiveUp,
}

/// Decide after attempt number `attempt` (counting from 0): a lost race is
/// retried while attempts remain; any other failure, or a lost race on the
/// last attempt, gives up.
pub fn after_append(attempt: usize, outcome: AppendOutcome) -> (r: AppendNext)
    requires
        attempt < APPEND_ATTEMPTS,
    ensures
        outcome == AppendOutcome::Appended ==> r == AppendNext::Done,
        outcome == AppendOutcome::PositionTaken ==> r == (if attempt + 1 < APPEND_ATTEMPTS {
            AppendNext::Retry
        } else {
            AppendNext::GiveUp
        }),
        outcome == AppendOutcome::Failed ==> r == AppendNext::GiveUp,
{
    match outcome {
        AppendOutcome::Appended => AppendNext::Done,
        AppendOutcome::PositionTaken => if attempt + 1 < APPEND_ATTEMPTS {
            AppendNext::Retry
        } else {
            AppendNext::GiveUp
        },
        AppendOutcome::Failed => AppendNext::GiveUp,
    }
}

} // verus!
