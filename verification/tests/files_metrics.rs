use zed_registry::error::extract_error_response;
use zed_registry::files::{
    budget_read_len, check_declared_size, check_read_bytes, classify_archive_error, entry_path,
    is_active_content, max_inflated_bytes, mime_for, scan_allowance, served_file_headers, served_mime,
    ExtractError, INFLATION_BUDGET_MSG, MAX_SERVED_FILE_BYTES,
};
use zed_registry::metrics::{
    escape_label, render_prometheus, utilization_operands, AppMetrics, MetricsSnapshot, RouteMetrics, StorageStats,
};

#[test]
fn mime_guessing() {
    assert_eq!(mime_for("dist/style.css"), "text/css; charset=utf-8");
    assert_eq!(mime_for("mod.wasm"), "application/wasm");
    assert_eq!(mime_for("weird.bin"), "application/octet-stream");
}

#[test]
fn active_content_is_neutralized_to_text_plain() {
    for path in ["index.html", "page.htm", "app.js", "m.mjs", "icon.svg"] {
        assert_eq!(served_mime(path), "text/plain; charset=utf-8", "{path} should be neutralized");
    }
    assert_eq!(served_mime("style.css"), "text/css; charset=utf-8");
    assert_eq!(served_mime("logo.png"), "image/png");
    assert_eq!(served_mime("mod.wasm"), "application/wasm");
}

#[test]
fn html_and_svg_are_served_sandboxed_as_text_plain() {
    for path in ["index.html", "icon.svg"] {
        let headers = served_file_headers(path);
        let get = |name: &str| headers.iter().find(|(n, _)| *n == name).map(|(_, v)| *v).unwrap();
        assert_eq!(get("content-type"), "text/plain; charset=utf-8");
        assert_eq!(get("content-security-policy"), "sandbox");
        assert_eq!(get("content-disposition"), "inline");
        assert_eq!(get("cache-control"), "public, max-age=31536000, immutable");
    }
}

#[test]
fn active_content_detection_ignores_parameters() {
    assert!(is_active_content("text/html; charset=utf-8"));
    assert!(is_active_content("application/xhtml+xml"));
    assert!(is_active_content("text/javascript; charset=utf-8"));
    assert!(!is_active_content("text/css; charset=utf-8"));
    assert!(!is_active_content("text/plain; charset=utf-8"));
}

#[test]
fn inflation_budget_setting() {
    assert_eq!(max_inflated_bytes(None), 536870912);
    assert_eq!(max_inflated_bytes(Some("8388608")), 8388608);
    assert_eq!(max_inflated_bytes(Some("0")), 536870912);
    assert_eq!(max_inflated_bytes(Some("lots")), 536870912);
    assert_eq!(scan_allowance(1024), 1025);
    assert_eq!(scan_allowance(u64::MAX), u64::MAX);
    assert_eq!(budget_read_len(0, 8192), None);
    assert_eq!(budget_read_len(100, 8192), Some(100));
    assert_eq!(budget_read_len(10_000, 8192), Some(8192));
}

#[test]
fn entries_are_found_under_the_archive_root_and_size_checked() {
    assert_eq!(entry_path("dist/style.css"), "pkg/dist/style.css");
    assert!(check_declared_size(MAX_SERVED_FILE_BYTES).is_ok());
    assert!(matches!(check_declared_size(MAX_SERVED_FILE_BYTES + 1), Err(ExtractError::TooLarge)));
    assert_eq!(check_read_bytes(b"body".to_vec()).unwrap(), b"body".to_vec());
}

#[test]
fn budget_stops_are_told_apart_from_corrupt_archives() {
    let wrapped = vec![
        "failed to iterate over archive".to_string(),
        format!("io: {INFLATION_BUDGET_MSG}"),
    ];
    assert!(matches!(classify_archive_error(&wrapped), ExtractError::InflationBudgetExceeded));
    let corrupt = vec!["invalid gzip header".to_string()];
    match classify_archive_error(&corrupt) {
        ExtractError::Archive(m) => assert_eq!(m, "invalid gzip header"),
        other => panic!("expected an archive error, got {other:?}"),
    }
}

#[test]
fn extraction_errors_map_to_responses() {
    let too_large = extract_error_response(&ExtractError::TooLarge, 1024);
    assert_eq!(too_large.status, 413);
    assert_eq!(too_large.code, "file_too_large");
    assert_eq!(
        too_large.message,
        "files larger than 26214400 bytes are not served individually; download the artifact instead"
    );
    let budget = extract_error_response(&ExtractError::InflationBudgetExceeded, 1024);
    assert_eq!(budget.code, "archive_too_large");
    assert!(budget.message.starts_with("this artifact inflates past the 1024 byte decompression budget"));
    let broken = extract_error_response(&ExtractError::Archive("bad".to_string()), 1024);
    assert_eq!((broken.status, broken.code), (500, "internal"));
}

#[test]
fn counts_errors_and_latency_buckets() {
    let mut metrics = AppMetrics::new();
    metrics.observe("GET /healthz", 200, 4);
    metrics.observe("GET /healthz", 503, 60);
    let snapshot = metrics.snapshot(None);
    let route = snapshot.route("GET /healthz").unwrap();
    assert_eq!(route.requests_total, 2);
    assert_eq!(route.errors_total, 1);
    assert_eq!(route.latency_sum_ms, 64);
    assert_eq!(route.latency_buckets[0], 0);
    assert_eq!(route.latency_buckets[1], 1);
    assert_eq!(route.latency_buckets[5], 2);
}

#[test]
fn routes_are_kept_in_name_order() {
    let mut metrics = AppMetrics::new();
    for route in ["PUT /v1/x", "GET /b", "GET /a", "GET /b"] {
        metrics.observe(route, 200, 1);
    }
    let snapshot = metrics.snapshot(None);
    let names: Vec<&str> = snapshot.routes().iter().map(|(n, _)| n.as_str()).collect();
    assert_eq!(names, ["GET /a", "GET /b", "PUT /v1/x"]);
    assert_eq!(snapshot.route("GET /b").unwrap().requests_total, 2);
    assert!(snapshot.route("GET /c").is_none());
}

#[test]
fn counters_saturate_and_buckets_are_cumulative() {
    let mut m = RouteMetrics::new();
    m.requests_total = u64::MAX;
    m.observe(500, 7_000);
    assert_eq!(m.requests_total, u64::MAX);
    assert_eq!(m.errors_total, 1);
    assert!(m.latency_buckets.iter().all(|c| *c == 0));
    m.observe(200, 1);
    assert!(m.latency_buckets.iter().all(|c| *c == 1));
    m.latency_sum_ms = u128::MAX;
    m.observe(200, 3);
    assert_eq!(m.latency_sum_ms, u128::MAX);
}

#[test]
fn prometheus_output_contains_storage_gauges_without_package_labels() {
    let snapshot = MetricsSnapshot::new(Some(StorageStats {
        backend: "memory",
        object_count: Some(2),
        used_bytes: Some(10),
        capacity_bytes: Some(20),
    }));
    let (used, capacity) = utilization_operands(snapshot.storage()).unwrap();
    let utilization = (used as f64 / capacity as f64).to_string();
    let rendered = render_prometheus(&snapshot, Some(&utilization));
    assert!(rendered.contains("zed_registry_artifact_storage_backend_info{backend=\"memory\"} 1"));
    assert!(rendered.contains("zed_registry_artifact_storage_objects{backend=\"memory\"} 2"));
    assert!(rendered.contains("zed_registry_artifact_storage_bytes{backend=\"memory\"} 10"));
    assert!(rendered.contains("zed_registry_artifact_storage_capacity_bytes{backend=\"memory\"} 20"));
    assert!(rendered.contains("zed_registry_artifact_storage_utilization_ratio{backend=\"memory\"} 0.5"));
    assert!(!rendered.contains("org="));
    assert!(!rendered.contains("package="));
}

#[test]
fn prometheus_output_escapes_route_labels() {
    let mut metrics = AppMetrics::new();
    metrics.observe("GET /\"bad\"", 200, 1);
    let rendered = render_prometheus(&metrics.snapshot(None), None);
    assert!(rendered.contains("route=\"GET /\\\"bad\\\"\""));
}

#[test]
fn route_lines_and_histogram() {
    let mut metrics = AppMetrics::new();
    metrics.observe("GET /healthz", 200, 30);
    let rendered = render_prometheus(&metrics.snapshot(None), None);
    assert!(rendered.starts_with("# HELP zed_registry_http_requests_total Total HTTP requests handled by route.\n"));
    assert!(rendered.contains("zed_registry_http_requests_total{route=\"GET /healthz\"} 1\n"));
    assert!(rendered.contains("zed_registry_http_errors_total{route=\"GET /healthz\"} 0\n"));
    assert!(rendered.contains("zed_registry_http_request_duration_ms_bucket{route=\"GET /healthz\",le=\"25\"} 0\n"));
    assert!(rendered.contains("zed_registry_http_request_duration_ms_bucket{route=\"GET /healthz\",le=\"50\"} 1\n"));
    assert!(rendered.contains("zed_registry_http_request_duration_ms_bucket{route=\"GET /healthz\",le=\"+Inf\"} 1\n"));
    assert!(rendered.contains("zed_registry_http_request_duration_ms_sum{route=\"GET /healthz\"} 30\n"));
    assert!(rendered.contains("zed_registry_http_request_duration_ms_count{route=\"GET /healthz\"} 1\n"));
    assert!(!rendered.contains("backend="));
}

#[test]
fn labels_escape_backslash_quote_and_newline() {
    assert_eq!(escape_label("a\\b\"c\nd"), "a\\\\b\\\"c\\nd");
    assert_eq!(escape_label("plain"), "plain");
}

#[test]
fn no_utilization_line_without_a_non_zero_capacity() {
    let stats = |used: Option<u64>, capacity: Option<u64>| StorageStats {
        backend: "memory",
        object_count: None,
        used_bytes: used,
        capacity_bytes: capacity,
    };
    assert_eq!(utilization_operands(Some(stats(Some(3), Some(0)))), None);
    assert_eq!(utilization_operands(Some(stats(None, Some(8)))), None);
    assert_eq!(utilization_operands(None), None);
    assert_eq!(utilization_operands(Some(stats(Some(3), Some(8)))), Some((3, 8)));
    let snapshot = MetricsSnapshot::new(Some(stats(Some(3), Some(0))));
    let rendered = render_prometheus(&snapshot, Some("0.5"));
    assert!(!rendered.contains("utilization_ratio{"));
    assert!(rendered.contains("zed_registry_artifact_storage_capacity_bytes{backend=\"memory\"} 0"));
}
