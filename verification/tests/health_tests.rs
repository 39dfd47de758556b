use pathfinder_nav::health::{
    compute_degraded_tools_from_health, health_request, is_ts_js_server, names_ts_js_server,
    HealthParamError,
};

#[test]
fn test_compute_degraded_tools_conditions() {
    let navigation_verified = Some(true);
    let navigation_ready = Some(true);
    let supports_definition = Some(false);
    let supports_call_hierarchy = Some(true);
    let server_name: Option<&String> = None;

    let degraded = compute_degraded_tools_from_health(
        navigation_verified,
        navigation_ready,
        supports_definition,
        supports_call_hierarchy,
        server_name,
    );
    assert_eq!(degraded.len(), 1);
    assert_eq!(degraded[0].tool, "locate");

    let degraded2 = compute_degraded_tools_from_health(
        Some(true),
        Some(true),
        Some(true),
        Some(false),
        Some(&"typescript-language-server".to_string()),
    );
    assert_eq!(degraded2.len(), 2);
    assert_eq!(degraded2[0].tool, "trace(scope=\"callers\")");
    assert_eq!(degraded2[1].tool, "inspect(include_dependencies=true)");
}

#[test]
fn degraded_tools_while_warming_up_cover_all_navigation() {
    let d = compute_degraded_tools_from_health(None, Some(false), None, None, None);
    let tools: Vec<&str> = d.iter().map(|t| t.tool.as_str()).collect();
    assert_eq!(
        tools,
        vec!["locate", "trace", "inspect", "trace(scope=\"references\")"]
    );
    assert!(d.iter().all(|t| t.severity == "warming_up"));
}

#[test]
fn degraded_tools_empty_when_fully_capable() {
    let d = compute_degraded_tools_from_health(None, Some(true), Some(true), Some(true), None);
    assert!(d.is_empty());
}

#[test]
fn ts_server_names_match_ignoring_case() {
    assert!(is_ts_js_server(Some(&"TypeScript-Language-Server".to_string())));
    assert!(is_ts_js_server(Some(&"VTSLS".to_string())));
    assert!(is_ts_js_server(Some(&"tsserver".to_string())));
    assert!(!is_ts_js_server(Some(&"rust-analyzer".to_string())));
    assert!(!is_ts_js_server(None));
    let d = compute_degraded_tools_from_health(
        None,
        Some(true),
        Some(true),
        None,
        Some(&"VTSLS".to_string()),
    );
    assert!(d[0].description.contains("not negotiated"));
    assert!(d[0].description.contains("TypeScript 3.8.0+"));
    let g = compute_degraded_tools_from_health(None, Some(true), Some(true), None, None);
    assert_eq!(
        g[0].description,
        "Uses text search instead of call hierarchy. May over/under-count references."
    );
}

#[test]
fn health_request_validation() {
    let restart = Some("restart".to_string());
    let rust = Some("rust".to_string());
    assert_eq!(health_request(&None, &None), Ok(None));
    assert_eq!(health_request(&restart, &rust), Ok(Some("rust".to_string())));
    assert_eq!(
        health_request(&Some("invalid_action".to_string()), &rust),
        Err(HealthParamError::InvalidAction)
    );
    assert_eq!(
        health_request(&restart, &None),
        Err(HealthParamError::RestartWithoutLanguage)
    );
    assert_eq!(
        HealthParamError::RestartWithoutLanguage.message(),
        "health action='restart' requires 'language' to be set"
    );
    assert_eq!(
        HealthParamError::InvalidAction.message(),
        "invalid `action`: must be 'restart'"
    );
}

#[test]
fn lower_cased_server_names() {
    assert!(names_ts_js_server("typescript-language-server"));
    assert!(names_ts_js_server("my-vtsls"));
    assert!(!names_ts_js_server("TypeScript"));
    assert!(!names_ts_js_server("gopls"));
}

#[test]
fn failed_probe_lists_three_degraded_tools() {
    let d = compute_degraded_tools_from_health(Some(false), Some(true), Some(true), Some(true), None);
    let tools: Vec<(&str, &str)> = d.iter().map(|t| (t.tool.as_str(), t.severity.as_str())).collect();
    assert_eq!(tools, vec![("locate", "degraded"), ("trace", "degraded"), ("inspect", "degraded")]);
}
