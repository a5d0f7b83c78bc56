//! The publish pipeline as a sequence of decisions.
//!
//! A publish runs: find the org named in the URL, authorize the token for it
//! (before any body is read), read the body, check the manifest against the
//! URL and the declared digest against the one computed here, check the VCS
//! tag, refuse an already-published version, store the blob, then commit the
//! package metadata and version row together and record the publish in the
//! audit trail. Each step that needs the outside world (database, blob
//! store, network) is an action the caller performs; its result is handed
//! back to the next step. Every rejection happens before the blob is stored
//! and before any row is written.
use vstd::prelude::*;
use crate::error::{ApiErr, ApiResult, ApiErrView, err_view, unauthorized_view};
use crate::rbac::{Role, authorize_publish, publishes, publish_denied_message};
use crate::crypto::{sha256_hex, sha256_hex_spec};
use crate::storage::{artifact_key, artifact_key_spec};
use crate::verify::TagCheck;
use crate::audit::AuditAction;
use crate::text::{owned, str_eq};

verus! {

/// Archive format of an artifact.
#[derive(Debug, Clone, Copy, PartialEq, Eq, Structural)]
pub enum ArtifactFormat {
    TarGz,
    Zip,
}

/// File extension of a format.
pub open spec fn extension_spec(f: ArtifactFormat) -> Seq<char> {
    match f {
        ArtifactFormat::TarGz => "tar.gz"@,
        ArtifactFormat::Zip => "zip"@,
    }
}

/// Media type of a format.
pub open spec fn content_type_spec(f: ArtifactFormat) -> Seq<char> {
    match f {
        ArtifactFormat::TarGz => "application/gzip"@,
        ArtifactFormat::Zip => "application/zip"@,
    }
}

impl ArtifactFormat {
    /// The stored spelling and key extension of the format.
    pub fn extension(&self) -> (r: &'static str)
        ensures
            r@ == extension_spec(*self),
    {
        match self {
            ArtifactFormat::TarGz => "tar.gz",
            ArtifactFormat::Zip => "zip",
        }
    }

    /// The media type an artifact of this format is served with.
    pub fn content_type(&self) -> (r: &'static str)
        ensures
            r@ == content_type_spec(*self),
    {
        match self {
            ArtifactFormat::TarGz => "application/gzip",
            ArtifactFormat::Zip => "application/zip",
        }
    }
}

/// The format a stored spelling denotes; unknown spellings are `tar.gz`.
pub fn artifact_format(stored: &str) -> (r: ArtifactFormat)
    ensures
        r == (if stored@ == "zip"@ { ArtifactFormat::Zip } else { ArtifactFormat::TarGz }),
{
    if str_eq(stored, "zip") {
        ArtifactFormat::Zip
    } else {
        ArtifactFormat::TarGz
    }
}

/// The publish metadata sent with the artifact: the manifest's package
/// fields, the declared digest, the VCS tag and commit, and the format.
#[derive(Debug)]
pub struct PublishMeta {
    pub org: String,
    pub name: String,
    pub version: String,
    pub description: Option<String>,
    pub vcs: String,
    pub repo_url: String,
    pub version_scheme: String,
    pub keywords: Vec<String>,
    pub sha256: String,
    pub vcs_tag: String,
    pub vcs_commit: Option<String>,
    pub format: ArtifactFormat,
}

/// The answer to a successful publish.
#[derive(Debug)]
pub struct PublishResponse {
    pub org: String,
    pub name: String,
    pub version: String,
    pub sha256: String,
}

/// How the metadata-and-version transaction ended.
#[derive(Debug, Clone, Copy, PartialEq, Eq, Structural)]
pub enum CommitOutcome {
    /// Both rows are written and the transaction committed.
    Committed,
    /// A concurrent publish inserted the same version first.
    VersionTaken,
    /// The package row could not be read back after its upsert.
    PackageRowMissing,
    /// Any other database failure.
    Failed,
}

/// An audit entry to record after a committed mutation.
#[derive(Debug)]
pub struct AuditEntry {
    pub org_id: u128,
    pub action: AuditAction,
    pub subject: String,
    pub detail: Option<String>,
}

/// Where a publish stands.
#[derive(Debug, Clone, Copy, PartialEq, Eq, Structural)]
pub enum PublishPhase {
    AwaitOrg,
    AwaitBody,
    AwaitTag,
    AwaitExisting,
    AwaitStore,
    AwaitCommit,
    Finished,
}

/// What the caller must do next.
#[derive(Debug)]
pub enum PublishAction {
    /// Find the id of the org with this slug.
    LookupOrg { slug: String },
    /// Read the request body.
    ReadBody,
    /// Check that the repository (of this version-control kind) carries
    /// the tag.
    VerifyTag { vcs: String, repo_url: String, tag: String },
    /// Find whether the package already has this version.
    LookupVersion { org_id: u128, name: String, version: String },
    /// Store the blob under the key.
    StoreBlob { key: String, bytes: Vec<u8>, content_type: &'static str },
    /// Upsert the package metadata and insert the version row in one
    /// transaction.
    Commit { org_id: u128, meta: PublishMeta, sha256: String, size: u64, artifact_key: String },
    /// Record `audit` (when present, best-effort) and answer with `outcome`.
    Finish { outcome: ApiResult<PublishResponse>, audit: Option<AuditEntry> },
}

/// One publish in progress.
#[derive(Debug)]
pub struct Publish {
    pub org: String,
    pub name: String,
    pub version: String,
    pub token_org: Option<u128>,
    pub role: Role,
    pub phase: PublishPhase,
    pub org_id: u128,
    pub meta: Option<PublishMeta>,
    pub artifact: Vec<u8>,
    pub sha256: String,
    pub size: u64,
}

/// `org/name@version`, the subject of a version in audit entries and messages.
pub open spec fn version_subject_spec(org: Seq<char>, name: Seq<char>, version: Seq<char>) -> Seq<char> {
    org + "/"@ + name + "@"@ + version
}

/// The message of the 404 for an org that does not exist.
pub open spec fn org_not_found_message(org: Seq<char>) -> Seq<char> {
    "org `"@ + org + "` does not exist; claim it first with `zed org claim "@ + org + "`"@
}

/// The message of the 400 for a manifest that names another version.
pub open spec fn mismatch_message(
    m_org: Seq<char>,
    m_name: Seq<char>,
    m_version: Seq<char>,
    org: Seq<char>,
    name: Seq<char>,
    version: Seq<char>,
) -> Seq<char> {
    "manifest says "@ + version_subject_spec(m_org, m_name, m_version) + ", url says "@
        + version_subject_spec(org, name, version)
}

/// The message of the 400 for a digest that does not match the artifact.
pub open spec fn digest_mismatch_message(declared: Seq<char>, actual: Seq<char>) -> Seq<char> {
    "client declared "@ + declared + ", server computed "@ + actual
}

/// The message of the 400 for a tag the repository does not carry.
pub open spec fn tag_missing_message(tag: Seq<char>, url: Seq<char>) -> Seq<char> {
    "tag `"@ + tag + "` not found on "@ + url
        + "; authors must tag the backing repo before publishing"@
}

/// The message of the 409 for a version that is already published.
pub open spec fn version_exists_message(org: Seq<char>, name: Seq<char>, version: Seq<char>) -> Seq<char> {
    version_subject_spec(org, name, version) + " is already published; versions are immutable"@
}

/// The detail recorded with a publish: `sha256=<digest>`.
pub open spec fn digest_detail_spec(sha: Seq<char>) -> Seq<char> {
    "sha256="@ + sha
}

/// What authorization of a publish answers: `None` when allowed.
pub open spec fn publish_denial(token_org: Option<u128>, role: Role, target: u128) -> Option<ApiErrView> {
    match token_org {
        None => None,
        Some(scope) => if scope != target {
            Some(unauthorized_view())
        } else if publishes(role) {
            None
        } else {
            Some(err_view(403, "insufficient_role"@, publish_denied_message(role)))
        },
    }
}

/// The 500 for a failed database call.
pub open spec fn database_error_view() -> ApiErrView {
    err_view(500, "internal"@, "internal database error"@)
}

/// The 500 for any other failed outside call.
pub open spec fn internal_error_view() -> ApiErrView {
    err_view(500, "internal"@, "internal error"@)
}

/// `org/name@version`.
pub fn version_subject(org: &str, name: &str, version: &str) -> (r: String)
    ensures
        r@ == version_subject_spec(org@, name@, version@),
{
    let mut r = owned(org);
    r.append("/");
    r.append(name);
    r.append("@");
    r.append(version);
    r
}

/// `sha256=<digest>`.
pub fn digest_detail(sha: &str) -> (r: String)
    ensures
        r@ == digest_detail_spec(sha@),
{
    let mut r = owned("sha256=");
    r.append(sha);
    r
}

/// The 409 for a version that is already published.
pub fn version_exists(org: &str, name: &str, version: &str) -> (r: ApiErr)
    ensures
        r@ == err_view(409, "version_exists"@, version_exists_message(org@, name@, version@)),
{
    let mut m = version_subject(org, name, version);
    m.append(" is already published; versions are immutable");
    ApiErr::conflict("version_exists", m)
}

/// The pieces of a publish body: both the metadata and the artifact must be
/// present (the metadata is reported first when both are missing).
pub fn body_parts(meta: Option<PublishMeta>, artifact: Option<Vec<u8>>) -> (r: ApiResult<(PublishMeta, Vec<u8>)>)
    ensures
        meta is None ==> (r matches Err(e) && e@ == err_view(400, "invalid_meta"@, "missing meta field"@)),
        meta is Some && artifact is None ==> (r matches Err(e) && e@ == err_view(
            400,
            "invalid_artifact"@,
            "missing artifact field"@,
        )),
        meta is Some && artifact is Some ==> (r matches Ok((m, a)) && m == meta->0 && a == artifact->0),
{
    match meta {
        None => Err(ApiErr::bad_request("invalid_meta", owned("missing meta field"))),
        Some(m) => match artifact {
            None => Err(ApiErr::bad_request("invalid_artifact", owned("missing artifact field"))),
            Some(a) => Ok((m, a)),
        },
    }
}

/// The result carried by a finishing action.
pub open spec fn finish_err(a: PublishAction) -> Option<ApiErrView> {
    match a {
        PublishAction::Finish { outcome: Err(e), audit: None } => Some(e@),
        _ => None,
    }
}

impl Publish {
    /// Start a publish of `org/name@version` by a token scoped to
    /// `token_org` with `role`; the first action looks the org up.
    pub fn start(org: String, name: String, version: String, token_org: Option<u128>, role: Role) -> (r: (
        Publish,
        PublishAction,
    ))
        ensures
            r.0.phase == PublishPhase::AwaitOrg,
            r.0.org == org && r.0.name == name && r.0.version == version,
            r.0.token_org == token_org && r.0.role == role,
            r.1 matches PublishAction::LookupOrg { slug } && slug@ == org@,
    {
        let slug = owned(org.as_str());
        (
            Publish {
                org,
                name,
                version,
                token_org,
                role,
                phase: PublishPhase::AwaitOrg,
                org_id: 0,
                meta: None,
                artifact: Vec::new(),
                sha256: String::new(),
                size: 0,
            },
            PublishAction::LookupOrg { slug },
        )
    }

    /// The org lookup answered: a missing org is a 404; otherwise the token
    /// is authorized for it before the body is read.
    pub fn on_org(&mut self, found: Option<u128>) -> (a: PublishAction)
        requires
            old(self).phase == PublishPhase::AwaitOrg,
        ensures
            final(self).org == old(self).org && final(self).name == old(self).name
                && final(self).version == old(self).version,
            found is None ==> final(self).phase == PublishPhase::Finished && finish_err(a) == Some(
                err_view(404, "org_not_found"@, org_not_found_message(old(self).org@)),
            ),
            found matches Some(id) ==> match publish_denial(old(self).token_org, old(self).role, id) {
                Some(e) => final(self).phase == PublishPhase::Finished && finish_err(a) == Some(e),
                None => final(self).phase == PublishPhase::AwaitBody && final(self).org_id == id
                    && a is ReadBody,
            },
    {
        match found {
            None => {
                let mut m = owned("org `");
                m.append(self.org.as_str());
                m.append("` does not exist; claim it first with `zed org claim ");
                m.append(self.org.as_str());
                m.append("`");
                self.phase = PublishPhase::Finished;
                PublishAction::Finish {
                    outcome: Err(ApiErr { status: 404, code: "org_not_found", message: m }),
                    audit: None,
                }
            },
            Some(id) => match authorize_publish(self.token_org, self.role, id) {
                Err(e) => {
                    self.phase = PublishPhase::Finished;
                    PublishAction::Finish { outcome: Err(e), audit: None }
                },
                Ok(()) => {
                    self.org_id = id;
                    self.phase = PublishPhase::AwaitBody;
                    PublishAction::ReadBody
                },
            },
        }
    }

    /// The body could not be read: the publish ends with that error.
    pub fn on_body_rejected(&mut self, err: ApiErr) -> (a: PublishAction)
        requires
            old(self).phase == PublishPhase::AwaitBody,
        ensures
            final(self).phase == PublishPhase::Finished,
            finish_err(a) == Some(err@),
    {
        self.phase = PublishPhase::Finished;
        PublishAction::Finish { outcome: Err(err), audit: None }
    }

    /// The body was read. `manifest_problem` is the manifest validation's
    /// complaint, if any. The manifest must name the URL's version and the
    /// declared digest must be the artifact's SHA-256; then the tag is checked.
    pub fn on_body(&mut self, meta: PublishMeta, artifact: Vec<u8>, manifest_problem: Option<String>) -> (a:
        PublishAction)
        requires
            old(self).phase == PublishPhase::AwaitBody,
        ensures
            final(self).org == old(self).org && final(self).name == old(self).name
                && final(self).version == old(self).version && final(self).org_id == old(self).org_id,
            manifest_problem matches Some(p) ==> final(self).phase == PublishPhase::Finished
                && finish_err(a) == Some(err_view(400, "invalid_manifest"@, p@)),
            (manifest_problem is None && !(meta.org@ == old(self).org@ && meta.name@ == old(self).name@
                && meta.version@ == old(self).version@)) ==> final(self).phase == PublishPhase::Finished
                && finish_err(a) == Some(
                err_view(
                    400,
                    "manifest_url_mismatch"@,
                    mismatch_message(
                        meta.org@,
                        meta.name@,
                        meta.version@,
                        old(self).org@,
                        old(self).name@,
                        old(self).version@,
                    ),
                ),
            ),
            (manifest_problem is None && meta.org@ == old(self).org@ && meta.name@ == old(self).name@
                && meta.version@ == old(self).version@ && meta.sha256@ != sha256_hex_spec(artifact@))
                ==> final(self).phase == PublishPhase::Finished && finish_err(a) == Some(
                err_view(
                    400,
                    "sha256_mismatch"@,
                    digest_mismatch_message(meta.sha256@, sha256_hex_spec(artifact@)),
                ),
            ),
            (manifest_problem is None && meta.org@ == old(self).org@ && meta.name@ == old(self).name@
                && meta.version@ == old(self).version@ && meta.sha256@ == sha256_hex_spec(artifact@))
                ==> final(self).phase == PublishPhase::AwaitTag && final(self).sha256@
                == sha256_hex_spec(artifact@) && final(self).artifact == artifact && final(self).size
                == artifact@.len() && final(self).meta == Some(meta) && (a matches PublishAction::VerifyTag {
                vcs,
                repo_url,
                tag,
            } && vcs@ == meta.vcs@ && repo_url@ == meta.repo_url@ && tag@ == meta.vcs_tag@),
    {
        if let Some(p) = manifest_problem {
            self.phase = PublishPhase::Finished;
            return PublishAction::Finish { outcome: Err(ApiErr::bad_request("invalid_manifest", p)), audit: None };
        }
        if !(str_eq(meta.org.as_str(), self.org.as_str()) && str_eq(meta.name.as_str(), self.name.as_str())
            && str_eq(meta.version.as_str(), self.version.as_str())) {
            let mut m = owned("manifest says ");
            let ms = version_subject(meta.org.as_str(), meta.name.as_str(), meta.version.as_str());
            m.append(ms.as_str());
            m.append(", url says ");
            let us = version_subject(self.org.as_str(), self.name.as_str(), self.version.as_str());
            m.append(us.as_str());
            self.phase = PublishPhase::Finished;
            return PublishAction::Finish {
                outcome: Err(ApiErr::bad_request("manifest_url_mismatch", m)),
                audit: None,
            };
        }
        let actual = sha256_hex(artifact.as_slice());
        if !str_eq(actual.as_str(), meta.sha256.as_str()) {
            let mut m = owned("client declared ");
            m.append(meta.sha256.as_str());
            m.append(", server computed ");
            m.append(actual.as_str());
            self.phase = PublishPhase::Finished;
            return PublishAction::Finish {
                outcome: Err(ApiErr::bad_request("sha256_mismatch", m)),
                audit: None,
            };
        }
        let vcs = owned(meta.vcs.as_str());
        let repo_url = owned(meta.repo_url.as_str());
        let tag = owned(meta.vcs_tag.as_str());
        self.size = artifact.len() as u64;
        self.sha256 = actual;
        self.artifact = artifact;
        self.meta = Some(meta);
        self.phase = PublishPhase::AwaitTag;
        PublishAction::VerifyTag { vcs, repo_url, tag }
    }

    /// The tag check answered: a missing tag is refused; otherwise the
    /// existing versions are looked up.
    pub fn on_tag(&mut self, check: TagCheck) -> (a: PublishAction)
        requires
            old(self).phase == PublishPhase::AwaitTag,
            old(self).meta is Some,
        ensures
            final(self).org == old(self).org && final(self).name == old(self).name
                && final(self).version == old(self).version && final(self).org_id == old(self).org_id
                && final(self).meta == old(self).meta && final(self).artifact == old(self).artifact
                && final(self).sha256 == old(self).sha256 && final(self).size == old(self).size,
            check is Missing ==> final(self).phase == PublishPhase::Finished && finish_err(a) == Some(
                err_view(
                    400,
                    "tag_not_found"@,
                    tag_missing_message(
                        old(self).meta->0.vcs_tag@,
                        old(self).meta->0.repo_url@,
                    ),
                ),
            ),
            !(check is Missing) ==> final(self).phase == PublishPhase::AwaitExisting && (
            a matches PublishAction::LookupVersion { org_id, name, version } && org_id
                == old(self).org_id && name@ == old(self).name@ && version@ == old(self).version@),
    {
        match check {
            TagCheck::Missing => {
                let mut m = owned("tag `");
                match &self.meta {
                    Some(meta) => {
                        m.append(meta.vcs_tag.as_str());
                        m.append("` not found on ");
                        m.append(meta.repo_url.as_str());
                    },
                    None => {},
                }
                m.append("; authors must tag the backing repo before publishing");
                self.phase = PublishPhase::Finished;
                PublishAction::Finish {
                    outcome: Err(ApiErr::bad_request("tag_not_found", m)),
                    audit: None,
                }
            },
            _ => {
                self.phase = PublishPhase::AwaitExisting;
                PublishAction::LookupVersion {
                    org_id: self.org_id,
                    name: owned(self.name.as_str()),
                    version: owned(self.version.as_str()),
                }
            },
        }
    }

    /// The version lookup answered: an existing version is an immutability
    /// conflict, answered before any metadata is touched; otherwise the blob
    /// is stored under its content-addressed key.
    pub fn on_existing(&mut self, exists: bool) -> (a: PublishAction)
        requires
            old(self).phase == PublishPhase::AwaitExisting,
            old(self).meta is Some,
        ensures
            final(self).org == old(self).org && final(self).name == old(self).name
                && final(self).version == old(self).version && final(self).org_id == old(self).org_id
                && final(self).meta == old(self).meta && final(self).sha256 == old(self).sha256
                && final(self).size == old(self).size,
            exists ==> final(self).phase == PublishPhase::Finished && finish_err(a) == Some(
                err_view(
                    409,
                    "version_exists"@,
                    version_exists_message(old(self).org@, old(self).name@, old(self).version@),
                ),
            ),
            !exists ==> final(self).phase == PublishPhase::AwaitStore && (
            a matches PublishAction::StoreBlob { key, bytes, content_type } && key@ == artifact_key_spec(
                old(self).sha256@,
                extension_spec(old(self).meta->0.format),
            ) && bytes == old(self).artifact && content_type@ == content_type_spec(
                old(self).meta->0.format,
            )),
    {
        if exists {
            self.phase = PublishPhase::Finished;
            return PublishAction::Finish {
                outcome: Err(version_exists(self.org.as_str(), self.name.as_str(), self.version.as_str())),
                audit: None,
            };
        }
        let format = match &self.meta {
            Some(m) => m.format,
            None => ArtifactFormat::TarGz,
        };
        let key = artifact_key(self.sha256.as_str(), format.extension());
        let mut bytes: Vec<u8> = Vec::new();
        std::mem::swap(&mut bytes, &mut self.artifact);
        self.phase = PublishPhase::AwaitStore;
        PublishAction::StoreBlob { key, bytes, content_type: format.content_type() }
    }

    /// The blob is stored: commit the metadata and the version row.
    pub fn on_stored(&mut self) -> (a: PublishAction)
        requires
            old(self).phase == PublishPhase::AwaitStore,
            old(self).meta is Some,
        ensures
            final(self).org == old(self).org && final(self).name == old(self).name
                && final(self).version == old(self).version && final(self).sha256 == old(self).sha256
                && final(self).org_id == old(self).org_id,
            final(self).phase == PublishPhase::AwaitCommit,
            a matches PublishAction::Commit { org_id, meta, sha256, size, artifact_key } && org_id
                == old(self).org_id && meta == old(self).meta->0 && sha256@ == old(self).sha256@ && size
                == old(self).size && artifact_key@ == artifact_key_spec(
                old(self).sha256@,
                extension_spec(old(self).meta->0.format),
            ),
    {
        let meta = self.meta.take().unwrap();
        let key = artifact_key(self.sha256.as_str(), meta.format.extension());
        self.phase = PublishPhase::AwaitCommit;
        PublishAction::Commit {
            org_id: self.org_id,
            meta,
            sha256: owned(self.sha256.as_str()),
            size: self.size,
            artifact_key: key,
        }
    }

    /// The commit ended: a committed publish is answered with the digest and
    /// audited as `publish` of `org/name@version` with `sha256=<digest>`; a
    /// version that a concurrent publish committed first is the same
    /// immutability conflict; any other failure is a 500 (the blob stays
    /// stored: another publisher of the same content may still commit it).
    pub fn on_commit(&mut self, outcome: CommitOutcome) -> (a: PublishAction)
        requires
            old(self).phase == PublishPhase::AwaitCommit,
        ensures
            final(self).phase == PublishPhase::Finished,
            outcome == CommitOutcome::Committed ==> (a matches PublishAction::Finish {
                outcome: Ok(resp),
                audit: Some(entry),
            } && resp.org@ == old(self).org@ && resp.name@ == old(self).name@ && resp.version@
                == old(self).version@ && resp.sha256@ == old(self).sha256@ && entry.org_id
                == old(self).org_id && entry.action == AuditAction::Publish && entry.subject@
                == version_subject_spec(old(self).org@, old(self).name@, old(self).version@)
                && (entry.detail matches Some(d) && d@ == digest_detail_spec(old(self).sha256@))),
            outcome == CommitOutcome::VersionTaken ==> finish_err(a) == Some(
                err_view(
                    409,
                    "version_exists"@,
                    version_exists_message(old(self).org@, old(self).name@, old(self).version@),
                ),
            ),
            outcome == CommitOutcome::PackageRowMissing ==> finish_err(a) == Some(
                err_view(500, "package_upsert_missing"@, "package row missing immediately after upsert"@),
            ),
            outcome == CommitOutcome::Failed ==> finish_err(a) == Some(database_error_view()),
    {
        self.phase = PublishPhase::Finished;
        match outcome {
            CommitOutcome::Committed => {
                let entry = AuditEntry {
                    org_id: self.org_id,
                    action: AuditAction::Publish,
                    subject: version_subject(self.org.as_str(), self.name.as_str(), self.version.as_str()),
                    detail: Some(digest_detail(self.sha256.as_str())),
                };
                let resp = PublishResponse {
                    org: owned(self.org.as_str()),
                    name: owned(self.name.as_str()),
                    version: owned(self.version.as_str()),
                    sha256: owned(self.sha256.as_str()),
                };
                PublishAction::Finish { outcome: Ok(resp), audit: Some(entry) }
            },
            CommitOutcome::VersionTaken => PublishAction::Finish {
                outcome: Err(version_exists(self.org.as_str(), self.name.as_str(), self.version.as_str())),
                audit: None,
            },
            CommitOutcome::PackageRowMissing => PublishAction::Finish {
                outcome: Err(ApiErr {
                    status: 500,
                    code: "package_upsert_missing",
                    message: owned("package row missing immediately after upsert"),
                }),
                audit: None,
            },
            CommitOutcome::Failed => PublishAction::Finish {
                outcome: Err(ApiErr::internal("internal database error")),
                audit: None,
            },
        }
    }

    /// An outside call failed (database lookup, tag lookup transport, blob
    /// store): the publish ends with a 500 and nothing further is done.
    pub fn on_failure(&mut self, database: bool) -> (a: PublishAction)
        requires
            old(self).phase != PublishPhase::Finished,
        ensures
            final(self).phase == PublishPhase::Finished,
            finish_err(a) == Some(if database { database_error_view() } else { internal_error_view() }),
    {
        self.phase = PublishPhase::Finished;
        let e = if database {
            ApiErr::internal("internal database error")
        } else {
            ApiErr::internal("internal error")
        };
        PublishAction::Finish { outcome: Err(e), audit: None }
    }
}

} // verus!
