//! Server configuration, read from environment variables.
//!
//! The environment is handed over as a list of `(name, value)` pairs; a name
//! that occurs more than once reads as its first occurrence. Every setting
//! has a default except `DATABASE_URL` (and `S3_BUCKET` for the S3 backend).
use vstd::prelude::*;
use vstd::string::*;
use crate::text::{owned, str_eq, chars_of, parse_u64, parse_u64_spec};

verus! {

/// Whether publishes are checked against the repository's tags.
#[derive(Clone, Copy, Debug, PartialEq, Eq, Structural)]
pub enum TagPolicy {
    /// No verification (development default).
    Off,
    /// Verify tags on github.com repositories; allow other hosts.
    Github,
}

/// The optional distributed lock service.
#[derive(Debug, Clone)]
pub struct FiduciaConfig {
    pub url: String,
    /// Secret for direct-to-node calls; the hosted edge uses bearer auth.
    pub internal_secret: Option<String>,
    pub org_id: String,
}

/// Where artifacts are stored.
#[derive(Debug, Clone)]
pub enum StorageConfig {
    /// Bounded process memory; every restart starts empty.
    Memory { max_bytes: u64 },
    /// A directory on local disk.
    Local { dir: String },
    /// An S3-compatible bucket.
    S3 { bucket: String, endpoint_url: Option<String>, region: String, force_path_style: bool },
}

/// The whole server configuration.
#[derive(Debug, Clone)]
pub struct Config {
    pub bind_addr: String,
    pub database_url: String,
    pub auto_migrate: bool,
    pub storage: StorageConfig,
    pub public_base_url: String,
    pub verify_tags: TagPolicy,
    pub max_artifact_bytes: usize,
    pub max_orgs_per_token: u64,
    pub db_max_connections: u32,
    pub fiducia: Option<FiduciaConfig>,
}

pub struct FiduciaConfigView {
    pub url: Seq<char>,
    pub internal_secret: Option<Seq<char>>,
    pub org_id: Seq<char>,
}

pub enum StorageConfigView {
    Memory { max_bytes: u64 },
    Local { dir: Seq<char> },
    S3 { bucket: Seq<char>, endpoint_url: Option<Seq<char>>, region: Seq<char>, force_path_style: bool },
}

pub struct ConfigView {
    pub bind_addr: Seq<char>,
    pub database_url: Seq<char>,
    pub auto_migrate: bool,
    pub storage: StorageConfigView,
    pub public_base_url: Seq<char>,
    pub verify_tags: TagPolicy,
    pub max_artifact_bytes: usize,
    pub max_orgs_per_token: u64,
    pub db_max_connections: u32,
    pub fiducia: Option<FiduciaConfigView>,
}

/// The text of an optional owned string.
pub open spec fn opt_view(o: Option<String>) -> Option<Seq<char>> {
    match o {
        Some(s) => Some(s@),
        None => None,
    }
}

impl View for FiduciaConfig {
    type V = FiduciaConfigView;

    open spec fn view(&self) -> FiduciaConfigView {
        FiduciaConfigView {
            url: self.url@,
            internal_secret: opt_view(self.internal_secret),
            org_id: self.org_id@,
        }
    }
}

impl View for StorageConfig {
    type V = StorageConfigView;

    open spec fn view(&self) -> StorageConfigView {
        match self {
            StorageConfig::Memory { max_bytes } => StorageConfigView::Memory { max_bytes: *max_bytes },
            StorageConfig::Local { dir } => StorageConfigView::Local { dir: dir@ },
            StorageConfig::S3 { bucket, endpoint_url, region, force_path_style } =>
                StorageConfigView::S3 {
                    bucket: bucket@,
                    endpoint_url: opt_view(*endpoint_url),
                    region: region@,
                    force_path_style: *force_path_style,
                },
        }
    }
}

impl View for Config {
    type V = ConfigView;

    open spec fn view(&self) -> ConfigView {
        ConfigView {
            bind_addr: self.bind_addr@,
            database_url: self.database_url@,
            auto_migrate: self.auto_migrate,
            storage: self.storage@,
            public_base_url: self.public_base_url@,
            verify_tags: self.verify_tags,
            max_artifact_bytes: self.max_artifact_bytes,
            max_orgs_per_token: self.max_orgs_per_token,
            db_max_connections: self.db_max_connections,
            fiducia: match self.fiducia {
                Some(f) => Some(f@),
                None => None,
            },
        }
    }
}

/// The value of the first variable named `key`.
pub open spec fn env_lookup(vars: Seq<(String, String)>, key: Seq<char>) -> Option<Seq<char>>
    decreases vars.len(),
{
    if vars.len() == 0 {
        None
    } else if vars[0].0@ == key {
        Some(vars[0].1@)
    } else {
        env_lookup(vars.drop_first(), key)
    }
}

/// The value of `key`, or `default` when it is not set.
pub open spec fn env_or(vars: Seq<(String, String)>, key: Seq<char>, default: Seq<char>) -> Seq<char> {
    match env_lookup(vars, key) {
        Some(v) => v,
        None => default,
    }
}

/// `str::parse::<usize>`.
pub open spec fn parse_usize_spec(s: Seq<char>) -> Option<usize> {
    match parse_u64_spec(s) {
        Some(n) => if n <= usize::MAX { Some(n as usize) } else { None },
        None => None,
    }
}

/// `str::parse::<u32>`.
pub open spec fn parse_u32_spec(s: Seq<char>) -> Option<u32> {
    match parse_u64_spec(s) {
        Some(n) => if n <= u32::MAX { Some(n as u32) } else { None },
        None => None,
    }
}

/// The storage backend the environment selects, or the error text.
pub open spec fn storage_spec(vars: Seq<(String, String)>) -> Result<StorageConfigView, Seq<char>> {
    let backend = env_or(vars, "STORAGE_BACKEND"@, "local"@);
    if backend == "memory"@ {
        match parse_u64_spec(env_or(vars, "STORAGE_MEMORY_MAX_BYTES"@, "268435456"@)) {
            None => Err("STORAGE_MEMORY_MAX_BYTES must be a number"@),
            Some(n) => if n == 0 {
                Err("STORAGE_MEMORY_MAX_BYTES must be greater than zero"@)
            } else {
                Ok(StorageConfigView::Memory { max_bytes: n })
            },
        }
    } else if backend == "local"@ {
        Ok(StorageConfigView::Local { dir: env_or(vars, "STORAGE_LOCAL_DIR"@, ".data/artifacts"@) })
    } else if backend == "s3"@ {
        match env_lookup(vars, "S3_BUCKET"@) {
            None => Err("S3_BUCKET is required for s3"@),
            Some(bucket) => Ok(
                StorageConfigView::S3 {
                    bucket,
                    endpoint_url: env_lookup(vars, "S3_ENDPOINT_URL"@),
                    region: env_or(vars, "S3_REGION"@, "auto"@),
                    force_path_style: env_or(vars, "S3_FORCE_PATH_STYLE"@, "true"@) == "true"@,
                },
            ),
        }
    } else {
        Err("STORAGE_BACKEND must be memory, local, or s3, got `"@ + backend + "`"@)
    }
}

/// The tag policy the environment selects, or the error text.
pub open spec fn tag_policy_spec(vars: Seq<(String, String)>) -> Result<TagPolicy, Seq<char>> {
    let v = env_or(vars, "ZED_VERIFY_TAGS"@, "off"@);
    if v == "off"@ {
        Ok(TagPolicy::Off)
    } else if v == "github"@ {
        Ok(TagPolicy::Github)
    } else {
        Err("ZED_VERIFY_TAGS must be off or github, got `"@ + v + "`"@)
    }
}

/// The configuration the environment describes, or the text of the first
/// problem found (storage, tag policy, database URL, then the numbers).
pub open spec fn config_spec(vars: Seq<(String, String)>) -> Result<ConfigView, Seq<char>> {
    match storage_spec(vars) {
        Err(e) => Err(e),
        Ok(storage) => match tag_policy_spec(vars) {
            Err(e) => Err(e),
            Ok(verify_tags) => match env_lookup(vars, "DATABASE_URL"@) {
                None => Err("DATABASE_URL is required"@),
                Some(database_url) => match parse_usize_spec(
                    env_or(vars, "MAX_ARTIFACT_BYTES"@, "104857600"@),
                ) {
                    None => Err("MAX_ARTIFACT_BYTES must be a number"@),
                    Some(max_artifact_bytes) => match parse_u64_spec(
                        env_or(vars, "ZED_MAX_ORGS_PER_TOKEN"@, "5"@),
                    ) {
                        None => Err("ZED_MAX_ORGS_PER_TOKEN must be a number"@),
                        Some(max_orgs_per_token) => match parse_u32_spec(
                            env_or(vars, "DB_MAX_CONNECTIONS"@, "10"@),
                        ) {
                            None => Err("DB_MAX_CONNECTIONS must be a number"@),
                            Some(db_max_connections) => Ok(
                                ConfigView {
                                    bind_addr: env_or(vars, "BIND_ADDR"@, "0.0.0.0:8080"@),
                                    database_url,
                                    auto_migrate: env_or(vars, "AUTO_MIGRATE"@, "true"@) == "true"@,
                                    storage,
                                    public_base_url: env_or(
                                        vars,
                                        "PUBLIC_BASE_URL"@,
                                        "http://localhost:8080"@,
                                    ),
                                    verify_tags,
                                    max_artifact_bytes,
                                    max_orgs_per_token,
                                    db_max_connections,
                                    fiducia: match env_lookup(vars, "FIDUCIA_URL"@) {
                                        None => None,
                                        Some(url) => Some(
                                            FiduciaConfigView {
                                                url,
                                                internal_secret: env_lookup(
                                                    vars,
                                                    "FIDUCIA_INTERNAL_SECRET"@,
                                                ),
                                                org_id: env_or(vars, "FIDUCIA_ORG_ID"@, "zed-registry"@),
                                            },
                                        ),
                                    },
                                },
                            ),
                        },
                    },
                },
            },
        },
    }
}

proof fn lemma_env_lookup_at(vars: Seq<(String, String)>, key: Seq<char>, i: int)
    requires
        0 <= i < vars.len(),
        vars[i].0@ == key,
        forall|j: int| 0 <= j < i ==> vars[j].0@ != key,
    ensures
        env_lookup(vars, key) == Some(vars[i].1@),
    decreases i,
{
    if i > 0 {
        lemma_env_lookup_at(vars.drop_first(), key, i - 1);
    }
}

proof fn lemma_env_lookup_none(vars: Seq<(String, String)>, key: Seq<char>)
    requires
        forall|j: int| 0 <= j < vars.len() ==> vars[j].0@ != key,
    ensures
        env_lookup(vars, key) is None,
    decreases vars.len(),
{
    if vars.len() > 0 {
        lemma_env_lookup_none(vars.drop_first(), key);
    }
}

/// The value of the first variable named `key`.
pub fn env_get(vars: &[(String, String)], key: &str) -> (r: Option<String>)
    ensures
        opt_view(r) == env_lookup(vars@, key@),
{
    let mut i: usize = 0;
    while i < vars.len()
        invariant
            i <= vars@.len(),
            forall|j: int| 0 <= j < i ==> vars@[j].0@ != key@,
        decreases vars.len() - i,
    {
        if str_eq(vars[i].0.as_str(), key) {
            proof { lemma_env_lookup_at(vars@, key@, i as int); }
            return Some(owned(vars[i].1.as_str()));
        }
        i = i + 1;
    }
    proof { lemma_env_lookup_none(vars@, key@); }
    None
}

/// The value of `key`, or `default` when it is not set.
pub fn env_get_or(vars: &[(String, String)], key: &str, default: &str) -> (r: String)
    ensures
        r@ == env_or(vars@, key@, default@),
{
    match env_get(vars, key) {
        Some(v) => v,
        None => owned(default),
    }
}

fn parse_u64_text(s: &String) -> (r: Option<u64>)
    ensures
        r == parse_u64_spec(s@),
{
    let cs = chars_of(s.as_str());
    parse_u64(cs.as_slice())
}

fn text_with_value(prefix: &str, value: &String) -> (r: String)
    ensures
        r@ == prefix@ + value@ + "`"@,
{
    let mut m = owned(prefix);
    m.append(value.as_str());
    m.append("`");
    m
}

/// The storage backend the environment selects.
pub fn storage_from_env(vars: &[(String, String)]) -> (r: Result<StorageConfig, String>)
    ensures
        r matches Ok(c) ==> storage_spec(vars@) == Ok::<StorageConfigView, Seq<char>>(c@),
        r matches Err(e) ==> storage_spec(vars@) == Err::<StorageConfigView, Seq<char>>(e@),
{
    let backend = env_get_or(vars, "STORAGE_BACKEND", "local");
    if str_eq(backend.as_str(), "memory") {
        let text = env_get_or(vars, "STORAGE_MEMORY_MAX_BYTES", "268435456");
        match parse_u64_text(&text) {
            None => Err(owned("STORAGE_MEMORY_MAX_BYTES must be a number")),
            Some(n) => if n == 0 {
                Err(owned("STORAGE_MEMORY_MAX_BYTES must be greater than zero"))
            } else {
                Ok(StorageConfig::Memory { max_bytes: n })
            },
        }
    } else if str_eq(backend.as_str(), "local") {
        Ok(StorageConfig::Local { dir: env_get_or(vars, "STORAGE_LOCAL_DIR", ".data/artifacts") })
    } else if str_eq(backend.as_str(), "s3") {
        match env_get(vars, "S3_BUCKET") {
            None => Err(owned("S3_BUCKET is required for s3")),
            Some(bucket) => {
                let endpoint_url = env_get(vars, "S3_ENDPOINT_URL");
                let region = env_get_or(vars, "S3_REGION", "auto");
                let style = env_get_or(vars, "S3_FORCE_PATH_STYLE", "true");
                let force_path_style = str_eq(style.as_str(), "true");
                Ok(StorageConfig::S3 { bucket, endpoint_url, region, force_path_style })
            },
        }
    } else {
        Err(text_with_value("STORAGE_BACKEND must be memory, local, or s3, got `", &backend))
    }
}

/// The tag policy the environment selects.
pub fn tag_policy_from_env(vars: &[(String, String)]) -> (r: Result<TagPolicy, String>)
    ensures
        r matches Ok(p) ==> tag_policy_spec(vars@) == Ok::<TagPolicy, Seq<char>>(p),
        r matches Err(e) ==> tag_policy_spec(vars@) == Err::<TagPolicy, Seq<char>>(e@),
{
    let v = env_get_or(vars, "ZED_VERIFY_TAGS", "off");
    if str_eq(v.as_str(), "off") {
        Ok(TagPolicy::Off)
    } else if str_eq(v.as_str(), "github") {
        Ok(TagPolicy::Github)
    } else {
        Err(text_with_value("ZED_VERIFY_TAGS must be off or github, got `", &v))
    }
}

impl Config {
    /// The configuration described by the environment `vars`.
    pub fn from_env(vars: &[(String, String)]) -> (r: Result<Config, String>)
        ensures
            r matches Ok(c) ==> config_spec(vars@) == Ok::<ConfigView, Seq<char>>(c@),
            r matches Err(e) ==> config_spec(vars@) == Err::<ConfigView, Seq<char>>(e@),
    {
        let storage = match storage_from_env(vars) {
            Ok(s) => s,
            Err(e) => return Err(e),
        };
        let verify_tags = match tag_policy_from_env(vars) {
            Ok(p) => p,
            Err(e) => return Err(e),
        };
        let bind_addr = env_get_or(vars, "BIND_ADDR", "0.0.0.0:8080");
        let database_url = match env_get(vars, "DATABASE_URL") {
            Some(u) => u,
            None => return Err(owned("DATABASE_URL is required")),
        };
        let auto = env_get_or(vars, "AUTO_MIGRATE", "true");
        let auto_migrate = str_eq(auto.as_str(), "true");
        let public_base_url = env_get_or(vars, "PUBLIC_BASE_URL", "http://localhost:8080");
        let max_artifact_text = env_get_or(vars, "MAX_ARTIFACT_BYTES", "104857600");
        let max_artifact_bytes: usize = match parse_u64_text(&max_artifact_text) {
            Some(n) => if n <= usize::MAX as u64 {
                n as usize
            } else {
                return Err(owned("MAX_ARTIFACT_BYTES must be a number"));
            },
            None => return Err(owned("MAX_ARTIFACT_BYTES must be a number")),
        };
        let orgs_text = env_get_or(vars, "ZED_MAX_ORGS_PER_TOKEN", "5");
        let max_orgs_per_token = match parse_u64_text(&orgs_text) {
            Some(n) => n,
            None => return Err(owned("ZED_MAX_ORGS_PER_TOKEN must be a number")),
        };
        let conn_text = env_get_or(vars, "DB_MAX_CONNECTIONS", "10");
        let db_max_connections: u32 = match parse_u64_text(&conn_text) {
            Some(n) => if n <= u32::MAX as u64 {
                n as u32
            } else {
                return Err(owned("DB_MAX_CONNECTIONS must be a number"));
            },
            None => return Err(owned("DB_MAX_CONNECTIONS must be a number")),
        };
        let fiducia = match env_get(vars, "FIDUCIA_URL") {
            None => None,
            Some(url) => Some(
                FiduciaConfig {
                    url,
                    internal_secret: env_get(vars, "FIDUCIA_INTERNAL_SECRET"),
                    org_id: env_get_or(vars, "FIDUCIA_ORG_ID", "zed-registry"),
                },
            ),
        };
        let c = Config {
            bind_addr,
            database_url,
            auto_migrate,
            storage,
            public_base_url,
            verify_tags,
            max_artifact_bytes,
            max_orgs_per_token,
            db_max_connections,
            fiducia,
        };
        Ok(c)
    }
}

/// Whether a switch variable is on: set to exactly `1`.
pub fn switch_on(vars: &[(String, String)], key: &str) -> (r: bool)
    ensures
        r == (env_lookup(vars@, key@) == Some("1"@)),
{
    match env_get(vars, key) {
        Some(v) => str_eq(v.as_str(), "1"),
        None => false,
    }
}

/// Authentication is switched off (`ZED_AUTH_DISABLED=1`); every caller then
/// acts with admin authority.
pub fn auth_disabled(vars: &[(String, String)]) -> (r: bool)
    ensures
        r == (env_lookup(vars@, "ZED_AUTH_DISABLED"@) == Some("1"@)),
{
    switch_on(vars, "ZED_AUTH_DISABLED")
}

} // verus!
