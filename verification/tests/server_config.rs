use zed_registry::config::{auth_disabled, env_get, Config, StorageConfig, TagPolicy};
use zed_registry::server::{
    after_failed_connect, connect_max_wait_secs, healthcheck_url, process_command, public_base_url,
    ProcessCommand,
};

fn arguments(values: &[&str]) -> Vec<String> {
    values.iter().map(|value| (*value).to_owned()).collect()
}

fn vars(pairs: &[(&str, &str)]) -> Vec<(String, String)> {
    pairs.iter().map(|(k, v)| (k.to_string(), v.to_string())).collect()
}

#[test]
fn process_commands_keep_their_argument_boundaries() {
    let create = arguments(&["zed-api-server", "create-token", "--name", "ci"]);
    assert!(matches!(
        process_command(&create),
        ProcessCommand::CreateToken(values) if values == ["--name", "ci"]
    ));

    let revoke = arguments(&["zed-api-server", "revoke-token", "--name", "ci"]);
    assert!(matches!(
        process_command(&revoke),
        ProcessCommand::RevokeToken(values) if values == ["--name", "ci"]
    ));
    assert_eq!(process_command(&arguments(&["zed-api-server", "healthcheck"])), ProcessCommand::Healthcheck);
    assert_eq!(process_command(&arguments(&["zed-api-server", "unknown"])), ProcessCommand::Serve);
}

#[test]
fn no_command_serves() {
    assert_eq!(process_command(&arguments(&["zed-api-server"])), ProcessCommand::Serve);
    assert_eq!(process_command(&[]), ProcessCommand::Serve);
}

#[test]
fn healthcheck_uses_the_bound_listener_port() {
    assert_eq!(healthcheck_url("0.0.0.0:8080"), "http://127.0.0.1:8080/healthz");
    assert_eq!(healthcheck_url("[::]:9090"), "http://127.0.0.1:9090/healthz");
}

#[test]
fn healthcheck_without_a_colon_uses_the_whole_address() {
    assert_eq!(healthcheck_url("8081"), "http://127.0.0.1:8081/healthz");
}

#[test]
fn connect_retry_deadline() {
    assert_eq!(connect_max_wait_secs(None), 30);
    assert_eq!(connect_max_wait_secs(Some("5")), 5);
    assert_eq!(connect_max_wait_secs(Some("soon")), 30);
    assert!(after_failed_connect(1, 4, 30).is_ok());
    assert_eq!(
        after_failed_connect(16, 31, 30).unwrap_err(),
        "failed to connect to DATABASE_URL after 16 attempts over 31s (DB_CONNECT_MAX_WAIT_SECS)"
    );
}

#[test]
fn base_url_loses_trailing_slashes() {
    assert_eq!(public_base_url("https://zed.example//"), "https://zed.example");
    assert_eq!(public_base_url("http://localhost:8080"), "http://localhost:8080");
}

#[test]
fn defaults_apply_when_only_the_database_is_configured() {
    let cfg = Config::from_env(&vars(&[("DATABASE_URL", "postgres://db")])).unwrap();
    assert_eq!(cfg.bind_addr, "0.0.0.0:8080");
    assert_eq!(cfg.database_url, "postgres://db");
    assert!(cfg.auto_migrate);
    assert!(matches!(cfg.storage, StorageConfig::Local { ref dir } if dir == ".data/artifacts"));
    assert_eq!(cfg.public_base_url, "http://localhost:8080");
    assert_eq!(cfg.verify_tags, TagPolicy::Off);
    assert_eq!(cfg.max_artifact_bytes, 104857600);
    assert_eq!(cfg.max_orgs_per_token, 5);
    assert_eq!(cfg.db_max_connections, 10);
    assert!(cfg.fiducia.is_none());
}

#[test]
fn configuration_errors_name_the_variable() {
    assert_eq!(Config::from_env(&[]).unwrap_err(), "DATABASE_URL is required");
    assert_eq!(
        Config::from_env(&vars(&[("STORAGE_BACKEND", "tape")])).unwrap_err(),
        "STORAGE_BACKEND must be memory, local, or s3, got `tape`"
    );
    assert_eq!(
        Config::from_env(&vars(&[("STORAGE_BACKEND", "memory"), ("STORAGE_MEMORY_MAX_BYTES", "0")])).unwrap_err(),
        "STORAGE_MEMORY_MAX_BYTES must be greater than zero"
    );
    assert_eq!(
        Config::from_env(&vars(&[("STORAGE_BACKEND", "s3")])).unwrap_err(),
        "S3_BUCKET is required for s3"
    );
    assert_eq!(
        Config::from_env(&vars(&[("ZED_VERIFY_TAGS", "gitlab"), ("DATABASE_URL", "x")])).unwrap_err(),
        "ZED_VERIFY_TAGS must be off or github, got `gitlab`"
    );
    assert_eq!(
        Config::from_env(&vars(&[("DATABASE_URL", "x"), ("DB_MAX_CONNECTIONS", "4294967296")])).unwrap_err(),
        "DB_MAX_CONNECTIONS must be a number"
    );
}

#[test]
fn storage_backends_and_lock_service() {
    let cfg = Config::from_env(&vars(&[
        ("DATABASE_URL", "x"),
        ("STORAGE_BACKEND", "s3"),
        ("S3_BUCKET", "artifacts"),
        ("S3_FORCE_PATH_STYLE", "false"),
        ("ZED_VERIFY_TAGS", "github"),
        ("FIDUCIA_URL", "https://locks"),
    ]))
    .unwrap();
    match &cfg.storage {
        StorageConfig::S3 { bucket, endpoint_url, region, force_path_style } => {
            assert_eq!(bucket, "artifacts");
            assert!(endpoint_url.is_none());
            assert_eq!(region, "auto");
            assert!(!force_path_style);
        }
        other => panic!("expected s3, got {other:?}"),
    }
    assert_eq!(cfg.verify_tags, TagPolicy::Github);
    let f = cfg.fiducia.unwrap();
    assert_eq!(f.url, "https://locks");
    assert_eq!(f.org_id, "zed-registry");
    assert!(f.internal_secret.is_none());

    let mem = Config::from_env(&vars(&[("DATABASE_URL", "x"), ("STORAGE_BACKEND", "memory")])).unwrap();
    assert!(matches!(mem.storage, StorageConfig::Memory { max_bytes: 268435456 }));
}

#[test]
fn first_occurrence_of_a_variable_wins_and_switches_need_one() {
    let v = vars(&[("A", "1"), ("A", "2"), ("ZED_AUTH_DISABLED", "true")]);
    assert_eq!(env_get(&v, "A").as_deref(), Some("1"));
    assert!(env_get(&v, "B").is_none());
    assert!(!auth_disabled(&v));
    assert!(auth_disabled(&vars(&[("ZED_AUTH_DISABLED", "1")])));
}
