use zed_registry::air::{
    actions_for, air_command, diagnostic, discover_root, explain_code, parse_inspect_args, render,
    summarize, AirCommand, CliState, PackageState, ProjectReport, Severity,
};
use zed_registry::mcp::{route_request, route_tool, tools, RpcRoute, Tool};

fn strings(values: &[&str]) -> Vec<String> {
    values.iter().map(|v| v.to_string()).collect()
}

#[test]
fn lock_only_actions_do_not_initialize_a_new_manifest() {
    let diagnostics = vec![
        diagnostic("ZED002", Severity::Warning, "missing".to_string(), "restore".to_string()),
        diagnostic("ZED004", Severity::Warning, "lock only".to_string(), "restore".to_string()),
    ];
    let actions = actions_for(&diagnostics);

    assert!(actions.iter().any(|action| action.id == "restore-lock-only"));
    assert!(!actions.iter().any(|action| action.id == "initialize-zed-package"));
}

#[test]
fn explains_known_code() {
    assert!(explain_code("zed007").contains("--frozen"));
}

#[test]
fn unknown_codes_point_at_project_status() {
    assert_eq!(
        explain_code("zed999"),
        "Unknown diagnostic code `zed999`. Run zed_project_status to obtain current supported codes."
    );
}

#[test]
fn lists_all_tools() {
    assert_eq!(route_request(true, Some("tools/list")), Some(RpcRoute::ToolsList));
    assert_eq!(tools().len(), 3);
}

#[test]
fn ignores_notifications() {
    assert_eq!(route_request(false, Some("notifications/initialized")), None);
}

#[test]
fn unknown_methods_and_tools_are_reported() {
    assert_eq!(route_request(true, Some("nope")), Some(RpcRoute::MethodNotFound));
    assert_eq!(route_tool(Some("zed_explain_diagnostic")).unwrap(), Tool::ExplainDiagnostic);
    let err = route_tool(Some("zed_bogus")).unwrap_err();
    assert_eq!(err.0, -32602);
    assert_eq!(err.1, "unknown tool `zed_bogus`");
    assert_eq!(route_tool(None).unwrap_err().1, "tools/call requires `name`");
}

#[test]
fn summary_counts_each_severity() {
    let diagnostics = vec![
        diagnostic("ZED001", Severity::Error, "a".to_string(), "b".to_string()),
        diagnostic("ZED002", Severity::Warning, "a".to_string(), "b".to_string()),
        diagnostic("ZED003", Severity::Warning, "a".to_string(), "b".to_string()),
        diagnostic("ZED008", Severity::Info, "a".to_string(), "b".to_string()),
    ];
    let s = summarize(&diagnostics);
    assert_eq!((s.errors, s.warnings, s.info), (1, 2, 1));
}

#[test]
fn root_is_the_nearest_marked_ancestor() {
    assert_eq!(discover_root(&[false, false, true, true]), 2);
    assert_eq!(discover_root(&[true, false]), 0);
    assert_eq!(discover_root(&[false, false]), 0);
    assert_eq!(discover_root(&[]), 0);
}

#[test]
fn commands_and_inspect_arguments() {
    assert_eq!(air_command(None), AirCommand::Mcp);
    assert_eq!(air_command(Some("doctor")), AirCommand::Inspect);
    assert_eq!(air_command(Some("-V")), AirCommand::Version);
    assert_eq!(air_command(Some("-h")), AirCommand::Help);
    assert_eq!(air_command(Some("frobnicate")), AirCommand::Unknown);

    let parsed = parse_inspect_args(&strings(&["--json", "--root", "/tmp/x"])).unwrap();
    assert!(parsed.json);
    assert_eq!(parsed.root.as_deref(), Some("/tmp/x"));
    assert_eq!(
        parse_inspect_args(&strings(&["--root"])).err().as_deref(),
        Some("--root requires a path")
    );
    assert_eq!(
        parse_inspect_args(&strings(&["--verbose"])).err().as_deref(),
        Some("unknown inspect argument `--verbose`")
    );
}

#[test]
fn render_lists_diagnostics_and_actions() {
    let diagnostics = vec![diagnostic(
        "ZED003",
        Severity::Warning,
        "The project has a manifest but no `.zpkg.lock`.".to_string(),
        "Run `zed install` to resolve dependencies and create the lockfile.".to_string(),
    )];
    let recommended_actions = actions_for(&diagnostics);
    let summary = summarize(&diagnostics);
    let report = ProjectReport {
        root: "/work/demo".to_string(),
        cli: CliState { available: true, version: Some("zed 1.0".to_string()), error: None },
        package: PackageState {
            manifest_path: None,
            lock_path: None,
            modules_path: None,
            org: None,
            name: None,
            version: None,
            direct_dependency_count: 0,
            manifest_valid: false,
            lock_valid: false,
        },
        summary,
        diagnostics,
        recommended_actions,
    };
    let text = render(&report);
    assert!(text.starts_with("Zed package status for /work/demo\nerrors: 0, warnings: 1, info: 0\n"));
    assert!(text.contains("\n[Warning] ZED003: The project has a manifest but no `.zpkg.lock`.\n"));
    assert!(text.contains("\nRecommended actions:\n"));
}
