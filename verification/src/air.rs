//! Package-state diagnostics for the editor assistant: which problems an
//! observed workspace has, what to recommend for them, how to explain a
//! diagnostic code, and the text report.

use vstd::prelude::*;
use crate::text::{chars_eq, chars_of, decimal, owned, push_char, push_decimal, str_eq, string_of};

verus! {

#[derive(Debug, Clone, Copy, PartialEq, Eq, Structural)]
pub enum Severity {
    Error,
    Warning,
    Info,
}

#[derive(Debug)]
pub struct Diagnostic {
    pub code: &'static str,
    pub severity: Severity,
    pub message: String,
    pub resolution: String,
}

pub struct DiagnosticView {
    pub code: Seq<char>,
    pub severity: Severity,
    pub message: Seq<char>,
    pub resolution: Seq<char>,
}

impl View for Diagnostic {
    type V = DiagnosticView;

    open spec fn view(&self) -> DiagnosticView {
        DiagnosticView {
            code: self.code@,
            severity: self.severity,
            message: self.message@,
            resolution: self.resolution@,
        }
    }
}

#[derive(Debug, Clone, Copy, PartialEq, Eq, Structural)]
pub enum ActionSafety {
    ReadOnly,
    MutatesProject,
    InstallsSoftware,
}

#[derive(Debug)]
pub struct RecommendedAction {
    pub id: &'static str,
    pub title: String,
    pub command: Option<String>,
    pub rationale: String,
    pub safety: ActionSafety,
}

pub struct ActionView {
    pub id: Seq<char>,
    pub title: Seq<char>,
    pub command: Option<Seq<char>>,
    pub rationale: Seq<char>,
    pub safety: ActionSafety,
}

impl View for RecommendedAction {
    type V = ActionView;

    open spec fn view(&self) -> ActionView {
        ActionView {
            id: self.id@,
            title: self.title@,
            command: match self.command { Some(c) => Some(c@), None => None },
            rationale: self.rationale@,
            safety: self.safety,
        }
    }
}

#[derive(Debug)]
pub struct CliState {
    pub available: bool,
    pub version: Option<String>,
    pub error: Option<String>,
}

#[derive(Debug)]
pub struct PackageState {
    pub manifest_path: Option<String>,
    pub lock_path: Option<String>,
    pub modules_path: Option<String>,
    pub org: Option<String>,
    pub name: Option<String>,
    pub version: Option<String>,
    pub direct_dependency_count: usize,
    pub manifest_valid: bool,
    pub lock_valid: bool,
}

#[derive(Debug, Clone, Copy, PartialEq, Eq, Structural)]
pub struct Summary {
    pub errors: usize,
    pub warnings: usize,
    pub info: usize,
}

#[derive(Debug)]
pub struct ProjectReport {
    pub root: String,
    pub cli: CliState,
    pub package: PackageState,
    pub summary: Summary,
    pub diagnostics: Vec<Diagnostic>,
    pub recommended_actions: Vec<RecommendedAction>,
}

pub open spec fn dv(code: Seq<char>, severity: Severity, message: Seq<char>, resolution: Seq<char>) -> DiagnosticView {
    DiagnosticView { code, severity, message, resolution }
}

pub open spec fn diags_view(ds: Seq<Diagnostic>) -> Seq<DiagnosticView> {
    ds.map_values(|d: Diagnostic| d@)
}

pub open spec fn actions_view(acts: Seq<RecommendedAction>) -> Seq<ActionView> {
    acts.map_values(|a: RecommendedAction| a@)
}

/// Build a diagnostic.
pub fn diagnostic(code: &'static str, severity: Severity, message: String, resolution: String) -> (r: Diagnostic)
    ensures
        r@ == dv(code@, severity, message@, resolution@),
{
    Diagnostic { code, severity, message, resolution }
}

/// How many diagnostics have severity `s`.
pub open spec fn count_severity(ds: Seq<DiagnosticView>, s: Severity) -> nat
    decreases ds.len(),
{
    if ds.len() == 0 {
        0
    } else {
        count_severity(ds.drop_last(), s) + if ds.last().severity == s { 1nat } else { 0nat }
    }
}

proof fn lemma_count_le(ds: Seq<DiagnosticView>, s: Severity)
    ensures
        count_severity(ds, s) <= ds.len(),
    decreases ds.len(),
{
    if ds.len() > 0 {
        lemma_count_le(ds.drop_last(), s);
    }
}

/// Count the diagnostics of each severity.
pub fn summarize(diagnostics: &[Diagnostic]) -> (r: Summary)
    ensures
        r.errors == count_severity(diags_view(diagnostics@), Severity::Error),
        r.warnings == count_severity(diags_view(diagnostics@), Severity::Warning),
        r.info == count_severity(diags_view(diagnostics@), Severity::Info),
{
    let ghost dv = diags_view(diagnostics@);
    let mut summary = Summary { errors: 0, warnings: 0, info: 0 };
    let mut i: usize = 0;
    while i < diagnostics.len()
        invariant
            dv == diags_view(diagnostics@),
            i <= diagnostics@.len(),
            summary.errors == count_severity(dv.take(i as int), Severity::Error),
            summary.warnings == count_severity(dv.take(i as int), Severity::Warning),
            summary.info == count_severity(dv.take(i as int), Severity::Info),
        decreases diagnostics.len() - i,
    {
        proof {
            assert(dv.take(i + 1).drop_last() =~= dv.take(i as int));
            assert(dv.take(i + 1).last() == diagnostics@[i as int]@);
            lemma_count_le(dv.take(i as int), Severity::Error);
            lemma_count_le(dv.take(i as int), Severity::Warning);
            lemma_count_le(dv.take(i as int), Severity::Info);
        }
        match diagnostics[i].severity {
            Severity::Error => summary.errors = summary.errors + 1,
            Severity::Warning => summary.warnings = summary.warnings + 1,
            Severity::Info => summary.info = summary.info + 1,
        }
        i = i + 1;
    }
    assert(dv.take(dv.len() as int) =~= dv);
    summary
}

/// Whether some diagnostic carries `code`.
pub open spec fn has_code(ds: Seq<DiagnosticView>, code: Seq<char>) -> bool {
    exists|i: int| 0 <= i < ds.len() && #[trigger] ds[i].code == code
}

fn any_code(diagnostics: &[Diagnostic], code: &str) -> (r: bool)
    ensures
        r == has_code(diags_view(diagnostics@), code@),
{
    let ghost dv = diags_view(diagnostics@);
    let mut i: usize = 0;
    while i < diagnostics.len()
        invariant
            dv == diags_view(diagnostics@),
            i <= diagnostics@.len(),
            forall|j: int| 0 <= j < i ==> #[trigger] dv[j].code != code@,
        decreases diagnostics.len() - i,
    {
        if str_eq(diagnostics[i].code, code) {
            assert(dv[i as int].code == code@);
            return true;
        }
        i = i + 1;
    }
    false
}

pub open spec fn av(id: Seq<char>, title: Seq<char>, command: Option<Seq<char>>, rationale: Seq<char>, safety: ActionSafety) -> ActionView {
    ActionView { id, title, command, rationale, safety }
}

fn action(id: &'static str, title: &str, command: Option<&str>, rationale: &str, safety: ActionSafety) -> (r: RecommendedAction)
    ensures
        r@ == av(id@, title@, match command { Some(c) => Some(c@), None => None }, rationale@, safety),
{
    let command = match command {
        Some(c) => Some(owned(c)),
        None => None,
    };
    RecommendedAction { id, title: owned(title), command, rationale: owned(rationale), safety }
}

pub open spec fn install_cli_action() -> ActionView {
    av("install-zed-cli"@, "Install the Zed CLI"@, Some("curl -fsSL https://zpkg.tech/install.sh | bash"@),
        "Air cannot ask zed-cli for authoritative package operations until the executable is available."@,
        ActionSafety::InstallsSoftware)
}

pub open spec fn initialize_action() -> ActionView {
    av("initialize-zed-package"@, "Initialize a Zed manifest"@, Some("zed init"@),
        "Creates the package manifest that records package identity and dependency intent."@,
        ActionSafety::MutatesProject)
}

pub open spec fn resolve_action() -> ActionView {
    av("resolve-dependencies"@, "Resolve Zed dependencies"@, Some("zed install"@),
        "Reconciles the manifest with the lockfile and materialized dependency tree."@,
        ActionSafety::MutatesProject)
}

pub open spec fn restore_lock_only_action() -> ActionView {
    av("restore-lock-only"@, "Restore an intentional lock-only workspace"@,
        Some("zed install --frozen --do-not-write-new-manifest"@),
        "Uses exact locked artifacts without inventing direct-dependency intent."@,
        ActionSafety::MutatesProject)
}

pub open spec fn materialize_action() -> ActionView {
    av("materialize-locked-packages"@, "Materialize exact locked packages"@, Some("zed install --frozen"@),
        "Restores `zed_modules/` without changing selected versions."@,
        ActionSafety::MutatesProject)
}

pub open spec fn repair_action() -> ActionView {
    av("repair-metadata"@, "Repair package metadata"@, None,
        "The manifest or lockfile needs human review before an automated package command is safe."@,
        ActionSafety::ReadOnly)
}

pub open spec fn inspect_store_action() -> ActionView {
    av("inspect-store"@, "Inspect the local Zed store"@, Some("zed store status"@),
        "Provides read-only cache and store context useful during package troubleshooting."@,
        ActionSafety::ReadOnly)
}

/// `a` when `b` holds, nothing otherwise.
pub open spec fn when<A>(b: bool, a: A) -> Seq<A> {
    if b { seq![a] } else { Seq::empty() }
}

/// The recommended actions for a set of diagnostics, in priority order: one
/// per problem class present, and always the read-only store inspection
/// last. A lock-only workspace (ZED004) is never told to initialize a new
/// manifest.
pub open spec fn actions_spec(ds: Seq<DiagnosticView>) -> Seq<ActionView> {
    when(has_code(ds, "ZED001"@), install_cli_action())
        + when(has_code(ds, "ZED002"@) && !has_code(ds, "ZED004"@), initialize_action())
        + when(has_code(ds, "ZED003"@) || has_code(ds, "ZED008"@), resolve_action())
        + when(has_code(ds, "ZED004"@), restore_lock_only_action())
        + when(has_code(ds, "ZED007"@), materialize_action())
        + when(has_code(ds, "ZED005"@) || has_code(ds, "ZED006"@) || has_code(ds, "ZED009"@), repair_action())
        + seq![inspect_store_action()]
}

fn push_when(actions: &mut Vec<RecommendedAction>, cond: bool, a: RecommendedAction)
    ensures
        actions_view(final(actions)@) == actions_view(old(actions)@) + when(cond, a@),
{
    let ghost before = actions@;
    if cond {
        actions.push(a);
        assert(actions_view(actions@) =~= actions_view(before) + when(cond, a@));
    } else {
        assert(actions_view(actions@) =~= actions_view(before) + when(cond, a@));
    }
}

/// Recommend actions for the given diagnostics.
pub fn actions_for(diagnostics: &[Diagnostic]) -> (r: Vec<RecommendedAction>)
    ensures
        actions_view(r@) == actions_spec(diags_view(diagnostics@)),
{
    let ghost ds = diags_view(diagnostics@);
    let z1 = any_code(diagnostics, "ZED001");
    let z2 = any_code(diagnostics, "ZED002");
    let z3 = any_code(diagnostics, "ZED003");
    let z4 = any_code(diagnostics, "ZED004");
    let z5 = any_code(diagnostics, "ZED005");
    let z6 = any_code(diagnostics, "ZED006");
    let z7 = any_code(diagnostics, "ZED007");
    let z8 = any_code(diagnostics, "ZED008");
    let z9 = any_code(diagnostics, "ZED009");
    let mut actions: Vec<RecommendedAction> = Vec::new();
    assert(actions_view(actions@) =~= Seq::<ActionView>::empty());
    push_when(&mut actions, z1, action("install-zed-cli", "Install the Zed CLI",
        Some("curl -fsSL https://zpkg.tech/install.sh | bash"),
        "Air cannot ask zed-cli for authoritative package operations until the executable is available.",
        ActionSafety::InstallsSoftware));
    push_when(&mut actions, z2 && !z4, action("initialize-zed-package", "Initialize a Zed manifest", Some("zed init"),
        "Creates the package manifest that records package identity and dependency intent.",
        ActionSafety::MutatesProject));
    push_when(&mut actions, z3 || z8, action("resolve-dependencies", "Resolve Zed dependencies", Some("zed install"),
        "Reconciles the manifest with the lockfile and materialized dependency tree.",
        ActionSafety::MutatesProject));
    push_when(&mut actions, z4, action("restore-lock-only", "Restore an intentional lock-only workspace",
        Some("zed install --frozen --do-not-write-new-manifest"),
        "Uses exact locked artifacts without inventing direct-dependency intent.",
        ActionSafety::MutatesProject));
    push_when(&mut actions, z7, action("materialize-locked-packages", "Materialize exact locked packages",
        Some("zed install --frozen"),
        "Restores `zed_modules/` without changing selected versions.",
        ActionSafety::MutatesProject));
    push_when(&mut actions, z5 || z6 || z9, action("repair-metadata", "Repair package metadata", None,
        "The manifest or lockfile needs human review before an automated package command is safe.",
        ActionSafety::ReadOnly));
    push_when(&mut actions, true, action("inspect-store", "Inspect the local Zed store", Some("zed store status"),
        "Provides read-only cache and store context useful during package troubleshooting.",
        ActionSafety::ReadOnly));
    proof {
        assert(when(true, inspect_store_action()) =~= seq![inspect_store_action()]);
        assert(Seq::<ActionView>::empty() + when(z1, install_cli_action()) =~= when(z1, install_cli_action()));
    }
    actions
}

/// No action of `s` is the manifest initialization.
pub open spec fn never_initializes(s: Seq<ActionView>) -> bool {
    forall|i: int| 0 <= i < s.len() ==> (#[trigger] s[i]).id.len() != 22
}

proof fn lemma_never_initializes_concat(a: Seq<ActionView>, b: Seq<ActionView>)
    requires
        never_initializes(a),
        never_initializes(b),
    ensures
        never_initializes(a + b),
{
    assert forall|i: int| 0 <= i < (a + b).len() implies (#[trigger] (a + b)[i]).id.len() != 22 by {
        if i < a.len() {
            assert((a + b)[i] == a[i]);
        } else {
            assert((a + b)[i] == b[i - a.len()]);
        }
    }
}

/// A lock-only workspace (ZED004) is never told to initialize a new
/// manifest, and is always told how to restore from the lock.
pub proof fn lemma_lock_only_never_initializes(ds: Seq<DiagnosticView>)
    requires
        has_code(ds, "ZED004"@),
    ensures
        forall|i: int| 0 <= i < actions_spec(ds).len() ==> #[trigger] actions_spec(ds)[i].id != initialize_action().id,
        actions_spec(ds).contains(restore_lock_only_action()),
{
    reveal_strlit("initialize-zed-package");
    reveal_strlit("install-zed-cli");
    reveal_strlit("resolve-dependencies");
    reveal_strlit("restore-lock-only");
    reveal_strlit("materialize-locked-packages");
    reveal_strlit("repair-metadata");
    reveal_strlit("inspect-store");
    let p1 = when(has_code(ds, "ZED001"@), install_cli_action());
    let p2 = when(has_code(ds, "ZED002"@) && !has_code(ds, "ZED004"@), initialize_action());
    let p3 = when(has_code(ds, "ZED003"@) || has_code(ds, "ZED008"@), resolve_action());
    let p4 = when(has_code(ds, "ZED004"@), restore_lock_only_action());
    let p5 = when(has_code(ds, "ZED007"@), materialize_action());
    let p6 = when(has_code(ds, "ZED005"@) || has_code(ds, "ZED006"@) || has_code(ds, "ZED009"@), repair_action());
    let p7 = seq![inspect_store_action()];
    assert(p2 =~= Seq::<ActionView>::empty());
    assert(never_initializes(p1));
    assert(never_initializes(p2));
    assert(never_initializes(p3));
    assert(never_initializes(p4));
    assert(never_initializes(p5));
    assert(never_initializes(p6));
    assert(never_initializes(p7));
    lemma_never_initializes_concat(p1, p2);
    lemma_never_initializes_concat(p1 + p2, p3);
    lemma_never_initializes_concat(p1 + p2 + p3, p4);
    lemma_never_initializes_concat(p1 + p2 + p3 + p4, p5);
    lemma_never_initializes_concat(p1 + p2 + p3 + p4 + p5, p6);
    lemma_never_initializes_concat(p1 + p2 + p3 + p4 + p5 + p6, p7);
    let a = actions_spec(ds);
    assert(a == p1 + p2 + p3 + p4 + p5 + p6 + p7);
    assert forall|i: int| 0 <= i < a.len() implies #[trigger] a[i].id != initialize_action().id by {
        assert(a[i].id.len() != 22);
    }
    let pre = p1 + p2 + p3;
    assert(a[pre.len() as int] == restore_lock_only_action());
}

proof fn lemma_contains_concat(a: Seq<ActionView>, b: Seq<ActionView>, x: ActionView)
    ensures
        (a + b).contains(x) <==> (a.contains(x) || b.contains(x)),
{
    if a.contains(x) {
        let i = choose|i: int| 0 <= i < a.len() && a[i] == x;
        assert((a + b)[i] == x);
    }
    if b.contains(x) {
        let j = choose|j: int| 0 <= j < b.len() && b[j] == x;
        assert((a + b)[a.len() + j] == x);
    }
    if (a + b).contains(x) {
        let k = choose|k: int| 0 <= k < (a + b).len() && (a + b)[k] == x;
        if k < a.len() {
            assert(a[k] == x);
        } else {
            assert(b[k - a.len()] == x);
        }
    }
}

/// Whether `x` is recommended among the actions for `ds`, segment by
/// segment of `actions_spec`.
pub open spec fn recommended_in_part(ds: Seq<DiagnosticView>, x: ActionView) -> bool {
    ||| when(has_code(ds, "ZED001"@), install_cli_action()).contains(x)
    ||| when(has_code(ds, "ZED002"@) && !has_code(ds, "ZED004"@), initialize_action()).contains(x)
    ||| when(has_code(ds, "ZED003"@) || has_code(ds, "ZED008"@), resolve_action()).contains(x)
    ||| when(has_code(ds, "ZED004"@), restore_lock_only_action()).contains(x)
    ||| when(has_code(ds, "ZED007"@), materialize_action()).contains(x)
    ||| when(has_code(ds, "ZED005"@) || has_code(ds, "ZED006"@) || has_code(ds, "ZED009"@), repair_action()).contains(x)
    ||| seq![inspect_store_action()].contains(x)
}

proof fn lemma_recommended_parts(ds: Seq<DiagnosticView>, x: ActionView)
    ensures
        actions_spec(ds).contains(x) <==> recommended_in_part(ds, x),
{
    let p1 = when(has_code(ds, "ZED001"@), install_cli_action());
    let p2 = when(has_code(ds, "ZED002"@) && !has_code(ds, "ZED004"@), initialize_action());
    let p3 = when(has_code(ds, "ZED003"@) || has_code(ds, "ZED008"@), resolve_action());
    let p4 = when(has_code(ds, "ZED004"@), restore_lock_only_action());
    let p5 = when(has_code(ds, "ZED007"@), materialize_action());
    let p6 = when(has_code(ds, "ZED005"@) || has_code(ds, "ZED006"@) || has_code(ds, "ZED009"@), repair_action());
    let p7 = seq![inspect_store_action()];
    lemma_contains_concat(p1, p2, x);
    lemma_contains_concat(p1 + p2, p3, x);
    lemma_contains_concat(p1 + p2 + p3, p4, x);
    lemma_contains_concat(p1 + p2 + p3 + p4, p5, x);
    lemma_contains_concat(p1 + p2 + p3 + p4 + p5, p6, x);
    lemma_contains_concat(p1 + p2 + p3 + p4 + p5 + p6, p7, x);
}

/// More diagnostics never withdraw a recommendation: when every code of
/// `d1` occurs in `d2`, each action recommended for `d1` is recommended for
/// `d2`, unless `d2` adds ZED004 (a lock-only workspace), which withdraws
/// only the advice to initialize a new manifest. Diagnostics with the same
/// codes get the same actions in the same order, whatever their order,
/// repetitions, severities and texts.
pub proof fn lemma_actions_monotone(d1: Seq<DiagnosticView>, d2: Seq<DiagnosticView>)
    requires
        forall|c: Seq<char>| #[trigger] has_code(d1, c) ==> has_code(d2, c),
    ensures
        forall|x: ActionView| #[trigger] actions_spec(d1).contains(x) && (has_code(d1, "ZED004"@)
            || !has_code(d2, "ZED004"@) || x != initialize_action()) ==> actions_spec(d2).contains(x),
        (forall|c: Seq<char>| #[trigger] has_code(d2, c) ==> has_code(d1, c)) ==> actions_spec(d1) == actions_spec(d2),
{
    assert(has_code(d1, "ZED001"@) ==> has_code(d2, "ZED001"@));
    assert(has_code(d1, "ZED002"@) ==> has_code(d2, "ZED002"@));
    assert(has_code(d1, "ZED003"@) ==> has_code(d2, "ZED003"@));
    assert(has_code(d1, "ZED004"@) ==> has_code(d2, "ZED004"@));
    assert(has_code(d1, "ZED005"@) ==> has_code(d2, "ZED005"@));
    assert(has_code(d1, "ZED006"@) ==> has_code(d2, "ZED006"@));
    assert(has_code(d1, "ZED007"@) ==> has_code(d2, "ZED007"@));
    assert(has_code(d1, "ZED008"@) ==> has_code(d2, "ZED008"@));
    assert(has_code(d1, "ZED009"@) ==> has_code(d2, "ZED009"@));
    assert forall|x: ActionView| #[trigger] actions_spec(d1).contains(x) && (has_code(d1, "ZED004"@)
        || !has_code(d2, "ZED004"@) || x != initialize_action()) implies actions_spec(d2).contains(x) by {
        lemma_recommended_parts(d1, x);
        lemma_recommended_parts(d2, x);
    }
    if forall|c: Seq<char>| #[trigger] has_code(d2, c) ==> has_code(d1, c) {
        assert(has_code(d2, "ZED001"@) ==> has_code(d1, "ZED001"@));
        assert(has_code(d2, "ZED002"@) ==> has_code(d1, "ZED002"@));
        assert(has_code(d2, "ZED003"@) ==> has_code(d1, "ZED003"@));
        assert(has_code(d2, "ZED004"@) ==> has_code(d1, "ZED004"@));
        assert(has_code(d2, "ZED005"@) ==> has_code(d1, "ZED005"@));
        assert(has_code(d2, "ZED006"@) ==> has_code(d1, "ZED006"@));
        assert(has_code(d2, "ZED007"@) ==> has_code(d1, "ZED007"@));
        assert(has_code(d2, "ZED008"@) ==> has_code(d1, "ZED008"@));
        assert(has_code(d2, "ZED009"@) ==> has_code(d1, "ZED009"@));
    }
}

/// ASCII uppercase of a character; other characters are unchanged.
pub open spec fn upper_char(c: char) -> char {
    if 'a' <= c && c <= 'z' { ((c as u32) - 32) as char } else { c }
}

/// `str::to_ascii_uppercase`.
pub open spec fn ascii_upper(s: Seq<char>) -> Seq<char> {
    s.map_values(|c: char| upper_char(c))
}

fn upper_of(c: char) -> (r: char)
    ensures
        r == upper_char(c),
{
    if 'a' <= c && c <= 'z' {
        let u = ((c as u32) - 32) as u8;
        u as char
    } else {
        c
    }
}

/// The explanation of a diagnostic code, matched case-insensitively (ASCII).
pub open spec fn explanation_spec(code: Seq<char>) -> Seq<char> {
    let u = ascii_upper(code);
    if u == "ZED000"@ {
        "No obvious package-state problem was detected. Continue to use frozen installs in CI."@
    } else if u == "ZED001"@ {
        "The zed CLI is missing from PATH. Install it and restart Air so the MCP subprocess receives the new environment."@
    } else if u == "ZED002"@ {
        "No .zpkg.toml exists. Initialize an authored package or adopt Zed through a dependency-bearing install."@
    } else if u == "ZED003"@ {
        "A manifest exists without a lockfile. Run zed install to resolve and record exact artifacts."@
    } else if u == "ZED004"@ {
        "A lockfile exists without a manifest. Restore the manifest when possible; otherwise use the explicit frozen lock-only workflow."@
    } else if u == "ZED005"@ {
        "The manifest is invalid TOML and must be repaired before dependency resolution is safe."@
    } else if u == "ZED006"@ {
        "The lockfile is invalid TOML. Restore it from version control or regenerate it from a valid manifest."@
    } else if u == "ZED007"@ {
        "Locked packages are not materialized. Run zed install --frozen to restore exact versions."@
    } else if u == "ZED008"@ {
        "The manifest is newer than the lockfile. Re-resolve and review the resulting lockfile diff."@
    } else if u == "ZED009"@ {
        "The package identity is incomplete. Add org, name, and version before publishing."@
    } else {
        "Unknown diagnostic code `"@ + code + "`. Run zed_project_status to obtain current supported codes."@
    }
}

/// The diagnostic codes, ZED000 to ZED009.
pub open spec fn known_codes() -> Seq<Seq<char>> {
    seq!["ZED000"@, "ZED001"@, "ZED002"@, "ZED003"@, "ZED004"@, "ZED005"@, "ZED006"@, "ZED007"@, "ZED008"@, "ZED009"@]
}

proof fn lemma_upper_idempotent(s: Seq<char>)
    ensures
        ascii_upper(ascii_upper(s)) == ascii_upper(s),
{
    assert forall|i: int| 0 <= i < s.len() implies upper_char(upper_char(s[i])) == upper_char(s[i]) by {
        let c = s[i];
        if 'a' <= c && c <= 'z' {
            let x = ((c as u32) - 32) as char;
            assert(65 <= x as u32 <= 90);
        }
    }
    assert(ascii_upper(ascii_upper(s)) =~= ascii_upper(s));
}

proof fn lemma_known_codes_are_upper()
    ensures
        forall|i: int| 0 <= i < 10 ==> ascii_upper(#[trigger] known_codes()[i]) == known_codes()[i],
        known_codes().len() == 10,
{
    reveal_strlit("ZED000");
    reveal_strlit("ZED001");
    reveal_strlit("ZED002");
    reveal_strlit("ZED003");
    reveal_strlit("ZED004");
    reveal_strlit("ZED005");
    reveal_strlit("ZED006");
    reveal_strlit("ZED007");
    reveal_strlit("ZED008");
    reveal_strlit("ZED009");
    assert forall|i: int| 0 <= i < 10 implies ascii_upper(#[trigger] known_codes()[i]) == known_codes()[i] by {
        let k = known_codes()[i];
        assert forall|j: int| 0 <= j < k.len() implies upper_char(k[j]) == k[j] by {}
        assert(ascii_upper(k) =~= k);
    }
}

/// The length of the explanation of the `k`-th known code.
spec fn explanation_len(k: int) -> nat {
    if k == 0 { 85 } else if k == 1 { 112 } else if k == 2 { 103 } else if k == 3 { 92 } else if k == 4 { 127 } else if k == 5 { 87 } else if k == 6 { 101 } else if k == 7 { 89 } else if k == 8 { 91 } else { 81 }
}

proof fn lemma_explanation_len(k: int)
    requires
        0 <= k < 10,
    ensures
        explanation_spec(known_codes()[k]).len() == explanation_len(k),
{
    reveal_strlit("ZED000");
    reveal_strlit("ZED001");
    reveal_strlit("ZED002");
    reveal_strlit("ZED003");
    reveal_strlit("ZED004");
    reveal_strlit("ZED005");
    reveal_strlit("ZED006");
    reveal_strlit("ZED007");
    reveal_strlit("ZED008");
    reveal_strlit("ZED009");
    assert("ZED000"@[5] == '0');
    assert("ZED001"@[5] == '1');
    assert("ZED002"@[5] == '2');
    assert("ZED003"@[5] == '3');
    assert("ZED004"@[5] == '4');
    assert("ZED005"@[5] == '5');
    assert("ZED006"@[5] == '6');
    assert("ZED007"@[5] == '7');
    assert("ZED008"@[5] == '8');
    assert("ZED009"@[5] == '9');
    reveal_strlit("No obvious package-state problem was detected. Continue to use frozen installs in CI.");
    reveal_strlit("The zed CLI is missing from PATH. Install it and restart Air so the MCP subprocess receives the new environment.");
    reveal_strlit("No .zpkg.toml exists. Initialize an authored package or adopt Zed through a dependency-bearing install.");
    reveal_strlit("A manifest exists without a lockfile. Run zed install to resolve and record exact artifacts.");
    reveal_strlit("A lockfile exists without a manifest. Restore the manifest when possible; otherwise use the explicit frozen lock-only workflow.");
    reveal_strlit("The manifest is invalid TOML and must be repaired before dependency resolution is safe.");
    reveal_strlit("The lockfile is invalid TOML. Restore it from version control or regenerate it from a valid manifest.");
    reveal_strlit("Locked packages are not materialized. Run zed install --frozen to restore exact versions.");
    reveal_strlit("The manifest is newer than the lockfile. Re-resolve and review the resulting lockfile diff.");
    reveal_strlit("The package identity is incomplete. Add org, name, and version before publishing.");
    lemma_known_codes_are_upper();
    if k == 0 {
        assert(known_codes()[0] == "ZED000"@);
    } else if k == 1 {
        assert(known_codes()[1] == "ZED001"@);
    } else if k == 2 {
        assert(known_codes()[2] == "ZED002"@);
    } else if k == 3 {
        assert(known_codes()[3] == "ZED003"@);
    } else if k == 4 {
        assert(known_codes()[4] == "ZED004"@);
    } else if k == 5 {
        assert(known_codes()[5] == "ZED005"@);
    } else if k == 6 {
        assert(known_codes()[6] == "ZED006"@);
    } else if k == 7 {
        assert(known_codes()[7] == "ZED007"@);
    } else if k == 8 {
        assert(known_codes()[8] == "ZED008"@);
    } else if k == 9 {
        assert(known_codes()[9] == "ZED009"@);
    }
}

/// Explanations are looked up case-insensitively and are told apart: a
/// code whose ASCII upper-case form is a known code gets that code's
/// explanation, any other code the unknown-code text with the code as
/// given, and the ten known codes have ten different explanations.
pub proof fn lemma_explanations(code: Seq<char>)
    ensures
        known_codes().contains(ascii_upper(code)) ==> explanation_spec(code) == explanation_spec(ascii_upper(code)),
        !known_codes().contains(ascii_upper(code)) ==> explanation_spec(code) == "Unknown diagnostic code `"@ + code
            + "`. Run zed_project_status to obtain current supported codes."@,
        forall|i: int, j: int| 0 <= i < j < 10 ==> explanation_spec(#[trigger] known_codes()[i])
            != explanation_spec(#[trigger] known_codes()[j]),
{
    reveal_strlit("ZED000");
    reveal_strlit("ZED001");
    reveal_strlit("ZED002");
    reveal_strlit("ZED003");
    reveal_strlit("ZED004");
    reveal_strlit("ZED005");
    reveal_strlit("ZED006");
    reveal_strlit("ZED007");
    reveal_strlit("ZED008");
    reveal_strlit("ZED009");
    lemma_upper_idempotent(code);
    lemma_known_codes_are_upper();
    let u = ascii_upper(code);
    if !known_codes().contains(u) {
        assert forall|i: int| 0 <= i < 10 implies known_codes()[i] != u by {}
        assert(known_codes()[0] != u);
        assert(known_codes()[1] != u);
        assert(known_codes()[2] != u);
        assert(known_codes()[3] != u);
        assert(known_codes()[4] != u);
        assert(known_codes()[5] != u);
        assert(known_codes()[6] != u);
        assert(known_codes()[7] != u);
        assert(known_codes()[8] != u);
        assert(known_codes()[9] != u);
    }
    assert forall|i: int, j: int| 0 <= i < j < 10 implies explanation_spec(#[trigger] known_codes()[i])
        != explanation_spec(#[trigger] known_codes()[j]) by {
        lemma_explanation_len(i);
        lemma_explanation_len(j);
    }
}

/// Explain a diagnostic code.
pub fn explain_code(code: &str) -> (r: String)
    ensures
        r@ == explanation_spec(code@),
{
    let cs = chars_of(code);
    let mut up: Vec<char> = Vec::new();
    let mut i: usize = 0;
    while i < cs.len()
        invariant
            i <= cs@.len(),
            up@ == ascii_upper(cs@.subrange(0, i as int)),
        decreases cs.len() - i,
    {
        up.push(upper_of(cs[i]));
        i = i + 1;
        assert(up@ =~= ascii_upper(cs@.subrange(0, i as int)));
    }
    assert(cs@.subrange(0, cs@.len() as int) =~= cs@);
    let u = up.as_slice();
    if chars_eq(u, "ZED000") {
        owned("No obvious package-state problem was detected. Continue to use frozen installs in CI.")
    } else if chars_eq(u, "ZED001") {
        owned("The zed CLI is missing from PATH. Install it and restart Air so the MCP subprocess receives the new environment.")
    } else if chars_eq(u, "ZED002") {
        owned("No .zpkg.toml exists. Initialize an authored package or adopt Zed through a dependency-bearing install.")
    } else if chars_eq(u, "ZED003") {
        owned("A manifest exists without a lockfile. Run zed install to resolve and record exact artifacts.")
    } else if chars_eq(u, "ZED004") {
        owned("A lockfile exists without a manifest. Restore the manifest when possible; otherwise use the explicit frozen lock-only workflow.")
    } else if chars_eq(u, "ZED005") {
        owned("The manifest is invalid TOML and must be repaired before dependency resolution is safe.")
    } else if chars_eq(u, "ZED006") {
        owned("The lockfile is invalid TOML. Restore it from version control or regenerate it from a valid manifest.")
    } else if chars_eq(u, "ZED007") {
        owned("Locked packages are not materialized. Run zed install --frozen to restore exact versions.")
    } else if chars_eq(u, "ZED008") {
        owned("The manifest is newer than the lockfile. Re-resolve and review the resulting lockfile diff.")
    } else if chars_eq(u, "ZED009") {
        owned("The package identity is incomplete. Add org, name, and version before publishing.")
    } else {
        let mut r = owned("Unknown diagnostic code `");
        r.append(code);
        r.append("`. Run zed_project_status to obtain current supported codes.");
        r
    }
}

/// What the manifest's parse found.
#[derive(Debug)]
pub struct ManifestIdentity {
    pub org: Option<String>,
    pub name: Option<String>,
    pub version: Option<String>,
    pub direct_dependency_count: usize,
}

/// The mathematical form of a `ManifestIdentity`.
pub struct ManifestIdentityView {
    pub org: Option<Seq<char>>,
    pub name: Option<Seq<char>>,
    pub version: Option<Seq<char>>,
    pub direct_dependency_count: nat,
}

impl View for ManifestIdentity {
    type V = ManifestIdentityView;

    open spec fn view(&self) -> ManifestIdentityView {
        ManifestIdentityView {
            org: opt_view(self.org),
            name: opt_view(self.name),
            version: opt_view(self.version),
            direct_dependency_count: self.direct_dependency_count as nat,
        }
    }
}

/// What inspecting a workspace root observed on disk.
#[derive(Debug)]
pub struct Observation {
    /// The manifest's path text, present exactly when `.zpkg.toml` exists.
    pub manifest_path: Option<String>,
    /// The manifest's parse outcome (consulted only when it exists): its
    /// identity fields, or the parser's error message.
    pub manifest: Result<ManifestIdentity, String>,
    /// The lockfile's path text, present exactly when `.zpkg.lock` exists.
    pub lock_path: Option<String>,
    /// The lockfile's parse outcome (consulted only when it exists).
    pub lock: Result<(), String>,
    /// The path text of `zed_modules`, present exactly when it exists.
    pub modules_path: Option<String>,
    /// Whether the manifest was modified after the lockfile.
    pub manifest_newer: bool,
}

pub open spec fn opt_view(o: Option<String>) -> Option<Seq<char>> {
    match o { Some(s) => Some(s@), None => None }
}

pub open spec fn manifest_ok(o: Observation) -> bool {
    o.manifest_path is Some && o.manifest is Ok
}

pub open spec fn lock_ok(o: Observation) -> bool {
    o.lock_path is Some && o.lock is Ok
}

pub open spec fn identity_incomplete(o: Observation) -> bool {
    match o.manifest {
        Ok(m) => m.org is None || m.name is None || m.version is None,
        Err(_) => false,
    }
}

pub open spec fn zed001() -> DiagnosticView {
    dv("ZED001"@, Severity::Error, "The `zed` CLI is not available on PATH."@,
        "Install zed-cli, restart Air so its environment sees the updated PATH, and inspect again."@)
}

pub open spec fn zed005(error: Seq<char>) -> DiagnosticView {
    dv("ZED005"@, Severity::Error, "The Zed manifest is invalid TOML: "@ + error,
        "Fix `.zpkg.toml`; do not regenerate the lockfile until the manifest parses cleanly."@)
}

pub open spec fn zed002() -> DiagnosticView {
    dv("ZED002"@, Severity::Warning, "No `.zpkg.toml` manifest was found for this workspace."@,
        "Run `zed init` for an authored package, or `zed install <org>/<name>@<requirement>` to adopt Zed while adding a dependency."@)
}

pub open spec fn zed006(error: Seq<char>) -> DiagnosticView {
    dv("ZED006"@, Severity::Error, "The Zed lockfile is invalid TOML: "@ + error,
        "Restore the lockfile from version control or resolve from a valid manifest with `zed install`."@)
}

pub open spec fn zed003() -> DiagnosticView {
    dv("ZED003"@, Severity::Warning, "The project has a manifest but no `.zpkg.lock`."@,
        "Run `zed install` to resolve dependencies and create the lockfile."@)
}

pub open spec fn zed004() -> DiagnosticView {
    dv("ZED004"@, Severity::Warning,
        "A lockfile exists without a manifest, so direct dependency intent cannot be reconstructed."@,
        "Restore `.zpkg.toml` when possible. For an intentional lock-only restore use `zed install --frozen --do-not-write-new-manifest`."@)
}

pub open spec fn zed007() -> DiagnosticView {
    dv("ZED007"@, Severity::Warning, "The manifest and lockfile exist, but `zed_modules/` is not materialized."@,
        "Run `zed install --frozen` to restore the exact locked packages."@)
}

pub open spec fn zed008() -> DiagnosticView {
    dv("ZED008"@, Severity::Info,
        "The manifest is newer than the lockfile; dependency intent may have changed since the last resolution."@,
        "Run `zed install` and review the lockfile diff."@)
}

pub open spec fn zed009() -> DiagnosticView {
    dv("ZED009"@, Severity::Warning,
        "The manifest parses, but one or more `[package]` identity fields are missing."@,
        "Set `package.org`, `package.name`, and `package.version` before publishing."@)
}

pub open spec fn zed000() -> DiagnosticView {
    dv("ZED000"@, Severity::Info, "No obvious Zed package-state problems were detected."@,
        "Use `zed install --frozen` in CI and `zed store status` when investigating local cache behavior."@)
}

/// What the manifest alone shows: ZED005 when it exists but does not parse,
/// ZED002 when it is missing.
pub open spec fn manifest_problems(o: Observation) -> Seq<DiagnosticView> {
    if o.manifest_path is Some {
        match o.manifest { Ok(_) => Seq::empty(), Err(e) => seq![zed005(e@)] }
    } else {
        seq![zed002()]
    }
}

/// What the lockfile shows: ZED006 when it exists but does not parse,
/// ZED003 when only the manifest exists.
pub open spec fn lock_problems(o: Observation) -> Seq<DiagnosticView> {
    if o.lock_path is Some {
        match o.lock { Ok(_) => Seq::empty(), Err(e) => seq![zed006(e@)] }
    } else {
        when(o.manifest_path is Some, zed003())
    }
}

/// The problems an observation shows, in report order; ZED000 alone when
/// there are none.
pub open spec fn problems(cli_available: bool, o: Observation) -> Seq<DiagnosticView> {
    when(!cli_available, zed001())
        + manifest_problems(o)
        + lock_problems(o)
        + when(o.lock_path is Some && o.manifest_path is None, zed004())
        + when(o.modules_path is None && manifest_ok(o) && lock_ok(o), zed007())
        + when(manifest_ok(o) && lock_ok(o) && o.manifest_newer, zed008())
        + when(manifest_ok(o) && identity_incomplete(o), zed009())
}

pub open spec fn diagnoses(cli_available: bool, o: Observation) -> Seq<DiagnosticView> {
    let p = problems(cli_available, o);
    if p.len() == 0 { seq![zed000()] } else { p }
}

/// The place of a diagnostic code in report order, read from its last
/// digit (0 for ZED000, which only ever stands alone).
pub open spec fn code_rank(code: Seq<char>) -> int {
    let c = code[5];
    if c == '1' { 1 }
    else if c == '5' || c == '2' { 2 }
    else if c == '6' || c == '3' { 3 }
    else if c == '4' { 4 }
    else if c == '7' { 5 }
    else if c == '8' { 6 }
    else if c == '9' { 7 }
    else { 0 }
}

/// Ranks strictly increase along the sequence.
pub open spec fn rank_sorted(ds: Seq<DiagnosticView>) -> bool {
    forall|i: int, j: int| 0 <= i < j < ds.len() ==> code_rank(#[trigger] ds[i].code) < code_rank(#[trigger] ds[j].code)
}

/// Every rank in the sequence lies in `lo..=hi`.
pub open spec fn ranks_within(ds: Seq<DiagnosticView>, lo: int, hi: int) -> bool {
    forall|i: int| 0 <= i < ds.len() ==> lo <= #[trigger] code_rank(ds[i].code) <= hi
}

proof fn lemma_sorted_concat(a: Seq<DiagnosticView>, b: Seq<DiagnosticView>, lo: int, k: int, hi: int)
    requires
        lo <= k <= hi,
        rank_sorted(a),
        rank_sorted(b),
        ranks_within(a, lo, k - 1),
        ranks_within(b, k, hi),
    ensures
        rank_sorted(a + b),
        ranks_within(a + b, lo, hi),
{
    assert forall|i: int, j: int| 0 <= i < j < (a + b).len() implies code_rank(#[trigger] (a + b)[i].code) < code_rank(#[trigger] (a + b)[j].code) by {
        if j < a.len() {
            assert((a + b)[i] == a[i] && (a + b)[j] == a[j]);
        } else if i >= a.len() {
            assert((a + b)[i] == b[i - a.len()] && (a + b)[j] == b[j - a.len()]);
        } else {
            assert((a + b)[i] == a[i] && (a + b)[j] == b[j - a.len()]);
            assert(code_rank(a[i].code) <= k - 1);
            assert(code_rank(b[j - a.len()].code) >= k);
        }
    }
    assert forall|i: int| 0 <= i < (a + b).len() implies lo <= #[trigger] code_rank((a + b)[i].code) <= hi by {
        if i < a.len() {
            assert((a + b)[i] == a[i]);
        } else {
            assert((a + b)[i] == b[i - a.len()]);
        }
    }
}

proof fn lemma_single_rank(s: Seq<DiagnosticView>, k: int)
    requires
        s.len() <= 1,
        s.len() == 1 ==> code_rank(s[0].code) == k,
    ensures
        rank_sorted(s),
        ranks_within(s, k, k),
{
}

proof fn lemma_code_ranks()
    ensures
        code_rank(zed000().code) == 0,
        code_rank(zed001().code) == 1,
        code_rank(zed002().code) == 2,
        code_rank(zed003().code) == 3,
        code_rank(zed004().code) == 4,
        code_rank(zed007().code) == 5,
        code_rank(zed008().code) == 6,
        code_rank(zed009().code) == 7,
        forall|e: Seq<char>| code_rank(#[trigger] zed005(e).code) == 2,
        forall|e: Seq<char>| code_rank(#[trigger] zed006(e).code) == 3,
        zed000().code == "ZED000"@,
        zed001().code == "ZED001"@,
        code_rank("ZED001"@) == 1,
{
    reveal_strlit("ZED000");
    reveal_strlit("ZED001");
    reveal_strlit("ZED002");
    reveal_strlit("ZED003");
    reveal_strlit("ZED004");
    reveal_strlit("ZED005");
    reveal_strlit("ZED006");
    reveal_strlit("ZED007");
    reveal_strlit("ZED008");
    reveal_strlit("ZED009");
}

proof fn lemma_problems_sorted(cli_available: bool, o: Observation)
    ensures
        rank_sorted(problems(cli_available, o)),
        ranks_within(problems(cli_available, o), if cli_available { 2 } else { 1 }, 7),
{
    let lo: int = if cli_available { 2 } else { 1 };
    lemma_code_ranks();
    let p1 = when(!cli_available, zed001());
    let p2 = manifest_problems(o);
    let p3 = lock_problems(o);
    let p4 = when(o.lock_path is Some && o.manifest_path is None, zed004());
    let p5 = when(o.modules_path is None && manifest_ok(o) && lock_ok(o), zed007());
    let p6 = when(manifest_ok(o) && lock_ok(o) && o.manifest_newer, zed008());
    let p7 = when(manifest_ok(o) && identity_incomplete(o), zed009());
    lemma_single_rank(p1, 1);
    lemma_single_rank(p2, 2);
    lemma_single_rank(p3, 3);
    lemma_single_rank(p4, 4);
    lemma_single_rank(p5, 5);
    lemma_single_rank(p6, 6);
    lemma_single_rank(p7, 7);
    lemma_sorted_concat(p1, p2, lo, 2, 2);
    lemma_sorted_concat(p1 + p2, p3, lo, 3, 3);
    lemma_sorted_concat(p1 + p2 + p3, p4, lo, 4, 4);
    lemma_sorted_concat(p1 + p2 + p3 + p4, p5, lo, 5, 5);
    lemma_sorted_concat(p1 + p2 + p3 + p4 + p5, p6, lo, 6, 6);
    lemma_sorted_concat(p1 + p2 + p3 + p4 + p5 + p6, p7, lo, 7, 7);
}

/// A manifest that parses is reported incomplete (ZED009) exactly when it
/// lacks at least one of `package.org`, `package.name` and
/// `package.version`.
pub proof fn lemma_zed009_iff_identity_missing(cli_available: bool, o: Observation, m: ManifestIdentity)
    requires
        o.manifest_path is Some,
        o.manifest == Ok::<ManifestIdentity, String>(m),
    ensures
        has_code(diagnoses(cli_available, o), "ZED009"@) <==> (m.org is None || m.name is None || m.version is None),
{
    reveal_strlit("ZED009");
    lemma_code_ranks();
    let lo: int = if cli_available { 2 } else { 1 };
    let p1 = when(!cli_available, zed001());
    let p2 = manifest_problems(o);
    let p3 = lock_problems(o);
    let p4 = when(o.lock_path is Some && o.manifest_path is None, zed004());
    let p5 = when(o.modules_path is None && manifest_ok(o) && lock_ok(o), zed007());
    let p6 = when(manifest_ok(o) && lock_ok(o) && o.manifest_newer, zed008());
    let p7 = when(manifest_ok(o) && identity_incomplete(o), zed009());
    lemma_single_rank(p1, 1);
    lemma_single_rank(p2, 2);
    lemma_single_rank(p3, 3);
    lemma_single_rank(p4, 4);
    lemma_single_rank(p5, 5);
    lemma_single_rank(p6, 6);
    lemma_sorted_concat(p1, p2, lo, 2, 2);
    lemma_sorted_concat(p1 + p2, p3, lo, 3, 3);
    lemma_sorted_concat(p1 + p2 + p3, p4, lo, 4, 4);
    lemma_sorted_concat(p1 + p2 + p3 + p4, p5, lo, 5, 5);
    lemma_sorted_concat(p1 + p2 + p3 + p4 + p5, p6, lo, 6, 6);
    let front = p1 + p2 + p3 + p4 + p5 + p6;
    let p = problems(cli_available, o);
    assert(p == front + p7);
    let d = diagnoses(cli_available, o);
    assert(code_rank("ZED009"@) == 7);
    if m.org is None || m.name is None || m.version is None {
        assert(p7 == seq![zed009()]);
        assert(p.len() > 0);
        assert(d[d.len() - 1] == zed009());
        assert(d[d.len() - 1].code == "ZED009"@);
    } else {
        assert(p7 =~= Seq::<DiagnosticView>::empty());
        assert(p =~= front);
        if has_code(d, "ZED009"@) {
            let i = choose|i: int| 0 <= i < d.len() && #[trigger] d[i].code == "ZED009"@;
            if p.len() > 0 {
                assert(code_rank(front[i].code) <= 6);
            } else {
                assert(d[i] == zed000());
            }
        }
    }
}

/// A workspace report always holds at least one diagnostic, no diagnostic
/// code occurs in it twice, ZED000 ("no problems") is in it exactly when it
/// is the only entry, and ZED001 exactly when the CLI is unavailable.
pub proof fn lemma_diagnoses_well_formed(cli_available: bool, o: Observation)
    ensures
        diagnoses(cli_available, o).len() >= 1,
        forall|i: int, j: int| 0 <= i < j < diagnoses(cli_available, o).len()
            ==> (#[trigger] diagnoses(cli_available, o)[i]).code != (#[trigger] diagnoses(cli_available, o)[j]).code,
        has_code(diagnoses(cli_available, o), "ZED000"@) <==> diagnoses(cli_available, o) == seq![zed000()],
        has_code(diagnoses(cli_available, o), "ZED001"@) <==> !cli_available,
{
    lemma_code_ranks();
    lemma_problems_sorted(cli_available, o);
    let p = problems(cli_available, o);
    let d = diagnoses(cli_available, o);
    assert forall|i: int, j: int| 0 <= i < j < d.len() implies (#[trigger] d[i]).code != (#[trigger] d[j]).code by {
        if p.len() > 0 {
            assert(code_rank(p[i].code) < code_rank(p[j].code));
        }
    }
    if has_code(d, "ZED000"@) {
        let i = choose|i: int| 0 <= i < d.len() && #[trigger] d[i].code == "ZED000"@;
        if p.len() > 0 {
            assert(code_rank(p[i].code) >= 1);
        }
    }
    if d == seq![zed000()] {
        assert(d[0].code == "ZED000"@);
    }
    if !cli_available {
        assert(p[0] == zed001());
        assert(d[0].code == "ZED001"@);
    }
    if has_code(d, "ZED001"@) {
        let i = choose|i: int| 0 <= i < d.len() && #[trigger] d[i].code == "ZED001"@;
        assert(code_rank(d[i].code) == 1);
        if p.len() == 0 {
            assert(d[i] == zed000());
        }
    }
}

fn diag(code: &'static str, severity: Severity, message: &str, resolution: &str) -> (r: Diagnostic)
    ensures
        r@ == dv(code@, severity, message@, resolution@),
{
    Diagnostic { code, severity, message: owned(message), resolution: owned(resolution) }
}

fn push_diag(ds: &mut Vec<Diagnostic>, d: Diagnostic)
    ensures
        diags_view(final(ds)@) == diags_view(old(ds)@) + seq![d@],
{
    let ghost before = ds@;
    ds.push(d);
    assert(diags_view(ds@) =~= diags_view(before) + seq![d@]);
}

fn clone_opt_string(o: &Option<String>) -> (r: Option<String>)
    ensures
        opt_view(r) == opt_view(*o),
{
    match o {
        Some(s) => Some(s.clone()),
        None => None,
    }
}

/// The package facts the report shows: paths of what exists, and the
/// manifest's identity when it parsed.
pub open spec fn package_state_spec(p: PackageState, o: Observation) -> bool {
    &&& opt_view(p.manifest_path) == opt_view(o.manifest_path)
    &&& opt_view(p.lock_path) == opt_view(o.lock_path)
    &&& opt_view(p.modules_path) == opt_view(o.modules_path)
    &&& p.manifest_valid == manifest_ok(o)
    &&& p.lock_valid == lock_ok(o)
    &&& (manifest_ok(o) ==> match o.manifest {
        Ok(m) => opt_view(p.org) == opt_view(m.org) && opt_view(p.name) == opt_view(m.name)
            && opt_view(p.version) == opt_view(m.version)
            && p.direct_dependency_count == m.direct_dependency_count,
        Err(_) => true,
    })
    &&& (!manifest_ok(o) ==> p.org is None && p.name is None && p.version is None
        && p.direct_dependency_count == 0)
}

/// Decide the diagnostics and package facts of an observed workspace.
pub fn diagnose(cli_available: bool, o: &Observation) -> (r: (PackageState, Vec<Diagnostic>))
    ensures
        package_state_spec(r.0, *o),
        diags_view(r.1@) == diagnoses(cli_available, *o),
{
    let mut ds: Vec<Diagnostic> = Vec::new();
    let ghost mut expect: Seq<DiagnosticView> = Seq::empty();
    assert(diags_view(ds@) =~= expect);
    if !cli_available {
        push_diag(&mut ds, diag("ZED001", Severity::Error, "The `zed` CLI is not available on PATH.",
            "Install zed-cli, restart Air so its environment sees the updated PATH, and inspect again."));
    }
    proof {
        expect = when(!cli_available, zed001());
        assert(diags_view(ds@) =~= expect);
    }
    let manifest_exists = o.manifest_path.is_some();
    let mut m_ok = false;
    if manifest_exists {
        match &o.manifest {
            Ok(_) => { m_ok = true; },
            Err(e) => {
                let mut m = owned("The Zed manifest is invalid TOML: ");
                m.append(e.as_str());
                push_diag(&mut ds, diag("ZED005", Severity::Error, m.as_str(),
                    "Fix `.zpkg.toml`; do not regenerate the lockfile until the manifest parses cleanly."));
            },
        }
    } else {
        push_diag(&mut ds, diag("ZED002", Severity::Warning, "No `.zpkg.toml` manifest was found for this workspace.",
            "Run `zed init` for an authored package, or `zed install <org>/<name>@<requirement>` to adopt Zed while adding a dependency."));
    }
    proof {
        expect = expect + manifest_problems(*o);
        assert(diags_view(ds@) =~= expect);
    }
    let lock_exists = o.lock_path.is_some();
    let mut l_ok = false;
    if lock_exists {
        match &o.lock {
            Ok(_) => { l_ok = true; },
            Err(e) => {
                let mut m = owned("The Zed lockfile is invalid TOML: ");
                m.append(e.as_str());
                push_diag(&mut ds, diag("ZED006", Severity::Error, m.as_str(),
                    "Restore the lockfile from version control or resolve from a valid manifest with `zed install`."));
            },
        }
    } else if manifest_exists {
        push_diag(&mut ds, diag("ZED003", Severity::Warning, "The project has a manifest but no `.zpkg.lock`.",
            "Run `zed install` to resolve dependencies and create the lockfile."));
    }
    proof {
        expect = expect + lock_problems(*o);
        assert(diags_view(ds@) =~= expect);
    }
    if lock_exists && !manifest_exists {
        push_diag(&mut ds, diag("ZED004", Severity::Warning,
            "A lockfile exists without a manifest, so direct dependency intent cannot be reconstructed.",
            "Restore `.zpkg.toml` when possible. For an intentional lock-only restore use `zed install --frozen --do-not-write-new-manifest`."));
    }
    proof {
        expect = expect + when(o.lock_path is Some && o.manifest_path is None, zed004());
        assert(diags_view(ds@) =~= expect);
    }
    if o.modules_path.is_none() && m_ok && l_ok {
        push_diag(&mut ds, diag("ZED007", Severity::Warning,
            "The manifest and lockfile exist, but `zed_modules/` is not materialized.",
            "Run `zed install --frozen` to restore the exact locked packages."));
    }
    proof {
        expect = expect + when(o.modules_path is None && manifest_ok(*o) && lock_ok(*o), zed007());
        assert(diags_view(ds@) =~= expect);
    }
    if m_ok && l_ok && o.manifest_newer {
        push_diag(&mut ds, diag("ZED008", Severity::Info,
            "The manifest is newer than the lockfile; dependency intent may have changed since the last resolution.",
            "Run `zed install` and review the lockfile diff."));
    }
    proof {
        expect = expect + when(manifest_ok(*o) && lock_ok(*o) && o.manifest_newer, zed008());
        assert(diags_view(ds@) =~= expect);
    }
    let mut state = PackageState {
        manifest_path: clone_opt_string(&o.manifest_path),
        lock_path: clone_opt_string(&o.lock_path),
        modules_path: clone_opt_string(&o.modules_path),
        org: None,
        name: None,
        version: None,
        direct_dependency_count: 0,
        manifest_valid: m_ok,
        lock_valid: l_ok,
    };
    if m_ok {
        match &o.manifest {
            Ok(id) => {
                state.org = clone_opt_string(&id.org);
                state.name = clone_opt_string(&id.name);
                state.version = clone_opt_string(&id.version);
                state.direct_dependency_count = id.direct_dependency_count;
                if id.org.is_none() || id.name.is_none() || id.version.is_none() {
                    push_diag(&mut ds, diag("ZED009", Severity::Warning,
                        "The manifest parses, but one or more `[package]` identity fields are missing.",
                        "Set `package.org`, `package.name`, and `package.version` before publishing."));
                }
            },
            Err(_) => {},
        }
    }
    proof {
        expect = expect + when(manifest_ok(*o) && identity_incomplete(*o), zed009());
        assert(diags_view(ds@) =~= expect);
        assert(expect =~= problems(cli_available, *o));
    }
    if ds.len() == 0 {
        push_diag(&mut ds, diag("ZED000", Severity::Info, "No obvious Zed package-state problems were detected.",
            "Use `zed install --frozen` in CI and `zed store status` when investigating local cache behavior."));
        assert(diags_view(ds@) =~= seq![zed000()]);
    }
    (state, ds)
}

/// Assemble the full report for a workspace: its diagnostics, the summary
/// counts of those diagnostics, and the actions recommended for them.
pub fn build_report(root: String, cli: CliState, o: &Observation) -> (r: ProjectReport)
    ensures
        r.root@ == root@,
        r.cli.available == cli.available,
        opt_view(r.cli.version) == opt_view(cli.version),
        opt_view(r.cli.error) == opt_view(cli.error),
        package_state_spec(r.package, *o),
        diags_view(r.diagnostics@) == diagnoses(cli.available, *o),
        actions_view(r.recommended_actions@) == actions_spec(diagnoses(cli.available, *o)),
        r.summary.errors == count_severity(diagnoses(cli.available, *o), Severity::Error),
        r.summary.warnings == count_severity(diagnoses(cli.available, *o), Severity::Warning),
        r.summary.info == count_severity(diagnoses(cli.available, *o), Severity::Info),
{
    let (package, diagnostics) = diagnose(cli.available, o);
    let recommended_actions = actions_for(diagnostics.as_slice());
    let summary = summarize(diagnostics.as_slice());
    ProjectReport { root, cli, package, summary, diagnostics, recommended_actions }
}

/// The `Debug` name of a severity.
pub open spec fn severity_name(s: Severity) -> Seq<char> {
    match s {
        Severity::Error => "Error"@,
        Severity::Warning => "Warning"@,
        Severity::Info => "Info"@,
    }
}

pub open spec fn diag_block(d: DiagnosticView) -> Seq<char> {
    "\n["@ + severity_name(d.severity) + "] "@ + d.code + ": "@ + d.message + "\n  Resolution: "@
        + d.resolution + "\n"@
}

pub open spec fn diag_blocks(ds: Seq<DiagnosticView>) -> Seq<char>
    decreases ds.len(),
{
    if ds.len() == 0 { Seq::empty() } else { diag_blocks(ds.drop_last()) + diag_block(ds.last()) }
}

pub open spec fn action_line(a: ActionView) -> Seq<char> {
    "- "@ + a.title + match a.command { Some(c) => ": `"@ + c + "`"@, None => Seq::empty() } + "\n"@
}

pub open spec fn action_lines(acts: Seq<ActionView>) -> Seq<char>
    decreases acts.len(),
{
    if acts.len() == 0 { Seq::empty() } else { action_lines(acts.drop_last()) + action_line(acts.last()) }
}

/// The text report of a project: header with the summary counts, one block
/// per diagnostic, then one line per recommended action.
pub open spec fn render_spec(root: Seq<char>, s: Summary, ds: Seq<DiagnosticView>, acts: Seq<ActionView>) -> Seq<char> {
    "Zed package status for "@ + root + "\nerrors: "@ + decimal(s.errors as nat) + ", warnings: "@
        + decimal(s.warnings as nat) + ", info: "@ + decimal(s.info as nat) + "\n"@
        + diag_blocks(ds) + "\nRecommended actions:\n"@ + action_lines(acts)
}

fn severity_str(s: Severity) -> (r: &'static str)
    ensures
        r@ == severity_name(s),
{
    match s {
        Severity::Error => "Error",
        Severity::Warning => "Warning",
        Severity::Info => "Info",
    }
}

/// Render a report as text.
#[verifier::rlimit(60)]
#[verifier::spinoff_prover]
pub fn render(report: &ProjectReport) -> (r: String)
    ensures
        r@ == render_spec(report.root@, report.summary, diags_view(report.diagnostics@),
            actions_view(report.recommended_actions@)),
{
    let mut out = owned("Zed package status for ");
    out.append(report.root.as_str());
    out.append("\nerrors: ");
    push_decimal(&mut out, report.summary.errors as u128);
    out.append(", warnings: ");
    push_decimal(&mut out, report.summary.warnings as u128);
    out.append(", info: ");
    push_decimal(&mut out, report.summary.info as u128);
    out.append("\n");
    let ghost head = out@;
    let ghost ds = diags_view(report.diagnostics@);
    let mut i: usize = 0;
    assert(ds.take(0) =~= Seq::<DiagnosticView>::empty());
    while i < report.diagnostics.len()
        invariant
            ds == diags_view(report.diagnostics@),
            i <= ds.len(),
            out@ == head + diag_blocks(ds.take(i as int)),
        decreases report.diagnostics.len() - i,
    {
        let d = &report.diagnostics[i];
        out.append("\n[");
        out.append(severity_str(d.severity));
        out.append("] ");
        out.append(d.code);
        out.append(": ");
        out.append(d.message.as_str());
        out.append("\n  Resolution: ");
        out.append(d.resolution.as_str());
        out.append("\n");
        proof {
            assert(ds.take(i + 1).drop_last() =~= ds.take(i as int));
            assert(ds.take(i + 1).last() == d@);
        }
        i = i + 1;
        assert(out@ =~= head + diag_blocks(ds.take(i as int)));
    }
    assert(ds.take(ds.len() as int) =~= ds);
    out.append("\nRecommended actions:\n");
    let ghost mid = out@;
    let ghost acts = actions_view(report.recommended_actions@);
    let mut j: usize = 0;
    assert(acts.take(0) =~= Seq::<ActionView>::empty());
    while j < report.recommended_actions.len()
        invariant
            acts == actions_view(report.recommended_actions@),
            j <= acts.len(),
            out@ == mid + action_lines(acts.take(j as int)),
        decreases report.recommended_actions.len() - j,
    {
        let a = &report.recommended_actions[j];
        out.append("- ");
        out.append(a.title.as_str());
        match &a.command {
            Some(c) => {
                out.append(": `");
                out.append(c.as_str());
                out.append("`");
            },
            None => {},
        }
        out.append("\n");
        proof {
            assert(acts.take(j + 1).drop_last() =~= acts.take(j as int));
            assert(acts.take(j + 1).last() == a@);
        }
        j = j + 1;
        assert(out@ =~= mid + action_lines(acts.take(j as int)));
    }
    assert(acts.take(acts.len() as int) =~= acts);
    assert(out@ =~= render_spec(report.root@, report.summary, ds, acts));
    out
}


/// The index (0 = start directory) of the workspace root among the start
/// directory and its ancestors, nearest first: the first of them that holds a
/// manifest or a lockfile (`marked`), or the start directory when none does.
pub fn discover_root(marked: &[bool]) -> (r: usize)
    ensures
        marked@.len() == 0 ==> r == 0,
        marked@.len() > 0 ==> r < marked@.len(),
        (exists|i: int| 0 <= i < marked@.len() && marked@[i]) ==> marked@[r as int] && forall|j: int|
            0 <= j < r ==> !marked@[j],
        !(exists|i: int| 0 <= i < marked@.len() && marked@[i]) ==> r == 0,
{
    let mut i: usize = 0;
    while i < marked.len()
        invariant
            i <= marked@.len(),
            forall|j: int| 0 <= j < i ==> !marked@[j],
        decreases marked.len() - i,
    {
        if marked[i] {
            return i;
        }
        i = i + 1;
    }
    0
}

/// What the command line asks the assistant binary to do.
#[derive(Debug, Clone, Copy, PartialEq, Eq, Structural)]
pub enum AirCommand {
    /// Serve MCP on standard input and output (also with no command).
    Mcp,
    /// `inspect` or `doctor`.
    Inspect,
    /// `--version` or `-V`.
    Version,
    /// `help`, `--help` or `-h`.
    Help,
    /// Anything else.
    Unknown,
}

/// The command a first argument selects.
pub open spec fn air_command_spec(first: Option<Seq<char>>) -> AirCommand {
    match first {
        None => AirCommand::Mcp,
        Some(a) => if a == "mcp"@ {
            AirCommand::Mcp
        } else if a == "inspect"@ || a == "doctor"@ {
            AirCommand::Inspect
        } else if a == "--version"@ || a == "-V"@ {
            AirCommand::Version
        } else if a == "help"@ || a == "--help"@ || a == "-h"@ {
            AirCommand::Help
        } else {
            AirCommand::Unknown
        },
    }
}

/// Select the command from the first argument.
pub fn air_command(first: Option<&str>) -> (r: AirCommand)
    ensures
        r == air_command_spec(
            match first {
                Some(a) => Some(a@),
                None => None,
            },
        ),
{
    match first {
        None => AirCommand::Mcp,
        Some(a) => {
            if str_eq(a, "mcp") {
                AirCommand::Mcp
            } else if str_eq(a, "inspect") || str_eq(a, "doctor") {
                AirCommand::Inspect
            } else if str_eq(a, "--version") || str_eq(a, "-V") {
                AirCommand::Version
            } else if str_eq(a, "help") || str_eq(a, "--help") || str_eq(a, "-h") {
                AirCommand::Help
            } else {
                AirCommand::Unknown
            }
        },
    }
}

/// The options of `inspect`: an explicit root and whether to print JSON.
#[derive(Debug)]
pub struct InspectArgs {
    pub root: Option<String>,
    pub json: bool,
}

/// Read the `inspect` options from position `i` on.
pub open spec fn scan_inspect(args: Seq<Seq<char>>, i: int, root: Option<Seq<char>>, json: bool) -> Result<
    (Option<Seq<char>>, bool),
    Seq<char>,
>
    decreases args.len() + 1 - i,
{
    if i < 0 || i >= args.len() {
        Ok((root, json))
    } else if args[i] == "--root"@ {
        if i + 1 < args.len() {
            scan_inspect(args, i + 2, Some(args[i + 1]), json)
        } else {
            Err("--root requires a path"@)
        }
    } else if args[i] == "--json"@ {
        scan_inspect(args, i + 1, root, true)
    } else {
        Err("unknown inspect argument `"@ + args[i] + "`"@)
    }
}

/// Read the arguments of `inspect`.
pub fn parse_inspect_args(args: &[String]) -> (r: Result<InspectArgs, String>)
    ensures
        r matches Ok(a) ==> scan_inspect(crate::tokens::arg_texts(args@), 0, None, false) == Ok::<
            (Option<Seq<char>>, bool),
            Seq<char>,
        >((opt_view(a.root), a.json)),
        r matches Err(e) ==> scan_inspect(crate::tokens::arg_texts(args@), 0, None, false) == Err::<
            (Option<Seq<char>>, bool),
            Seq<char>,
        >(e@),
{
    let ghost t = crate::tokens::arg_texts(args@);
    let mut root: Option<String> = None;
    let mut json = false;
    let mut i: usize = 0;
    while i < args.len()
        invariant
            t == crate::tokens::arg_texts(args@),
            i <= args@.len(),
            scan_inspect(t, 0, None, false) == scan_inspect(t, i as int, opt_view(root), json),
        decreases args.len() - i,
    {
        let a = &args[i];
        assert(t[i as int] == a@);
        if str_eq(a.as_str(), "--root") {
            if i + 1 < args.len() {
                assert(t[i + 1] == args@[i + 1]@);
                root = Some(owned(args[i + 1].as_str()));
                i = i + 2;
            } else {
                return Err(owned("--root requires a path"));
            }
        } else if str_eq(a.as_str(), "--json") {
            json = true;
            i = i + 1;
        } else {
            let mut m = owned("unknown inspect argument `");
            m.append(a.as_str());
            m.append("`");
            return Err(m);
        }
    }
    Ok(InspectArgs { root, json })
}

} // verus!
