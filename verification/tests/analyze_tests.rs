use pathfinder_nav::analyze::{analyze_needs_grep, resolve_analysis, ImpactAnalysis};
use pathfinder_nav::bfs::FileSet;
use pathfinder_nav::definition::SearchMatch;
use pathfinder_nav::fallback::select_impact_matches;
use pathfinder_nav::impact::PrepareOutcome;
use pathfinder_nav::reason::DegradedReason;

fn sm(file: &str, line: u64, content: &str) -> SearchMatch {
    SearchMatch {
        file: file.to_string(),
        line,
        column: 1,
        content: content.to_string(),
        enclosing_semantic_path: None,
    }
}

/// The analysis for an outcome of the server and the plain-text search's
/// matches for `login` defined in `src/auth.rs`.
fn analyse(outcome: PrepareOutcome, matches: Vec<SearchMatch>) -> (ImpactAnalysis, FileSet) {
    let mut files = FileSet::new();
    let grep = if analyze_needs_grep(outcome) {
        select_impact_matches(matches, "login", "src/auth.rs", &mut files)
    } else {
        None
    };
    (resolve_analysis(outcome, Vec::new(), Vec::new(), grep), files)
}

#[test]
fn test_analyze_impact_returns_empty_degraded() {
    let (val, _) = analyse(PrepareOutcome::Unavailable, Vec::new());
    assert!(val.incoming.is_none(), "incoming must be null (not empty) when degraded");
    assert!(val.outgoing.is_none(), "outgoing must be null (not empty) when degraded");
    assert!(val.degraded);
    assert_eq!(val.degraded_reason.map(|r| r.as_str()), Some("no_lsp"));
}

#[test]
fn test_analyze_impact_empty_hierarchy_confirmed_zero() {
    let (val, _) = analyse(PrepareOutcome::EmptyWarm, Vec::new());
    assert!(!val.degraded);
    assert_eq!(val.degraded_reason, None);
    assert!(val.incoming.expect("must be Some when confirmed-zero").is_empty());
    assert!(val.outgoing.expect("must be Some when confirmed-zero").is_empty());
}

#[test]
fn test_analyze_impact_empty_hierarchy_warmup_degrades() {
    let (val, _) = analyse(PrepareOutcome::EmptyCold, Vec::new());
    assert!(val.degraded);
    assert_eq!(val.degraded_reason.map(|r| r.as_str()), Some("lsp_warmup_empty_unverified"));
    assert!(val.incoming.is_none());
    assert!(val.outgoing.is_none());
}

#[test]
fn test_analyze_impact_lsp_error_degrades() {
    let (val, _) = analyse(PrepareOutcome::Failed, vec![sm("src/caller.rs", 1, "login();")]);
    assert!(val.degraded);
    assert_eq!(val.degraded_reason, Some(DegradedReason::NoLsp));
    assert!(val.incoming.is_none());
}

#[test]
fn test_analyze_impact_grep_fallback_with_mock_scout() {
    let (val, files) = analyse(
        PrepareOutcome::Unavailable,
        vec![sm("src/caller.rs", 1, "fn handle_request() { login(); }")],
    );
    assert!(val.degraded);
    assert_eq!(val.degraded_reason.map(|r| r.as_str()), Some("no_lsp_grep_fallback"));
    let incoming = val.incoming.expect("must be Some from grep");
    assert_eq!(incoming.len(), 1);
    assert_eq!(incoming[0].file, "src/caller.rs");
    assert_eq!(incoming[0].direction, "incoming_heuristic");
    assert_eq!(incoming[0].semantic_path, "src/caller.rs::login");
    assert_eq!(files.len(), 1);
}

#[test]
fn test_analyze_impact_grep_fallback_filters_non_source_files() {
    let matches = vec![
        sm("src/caller.rs", 1, "fn call() { login(); }"),
        sm("docs/README.md", 10, "call login() to authenticate"),
        sm("config.json", 5, "\"login\": \"/api/auth\""),
        sm("web/src/auth.ts", 20, "import { login } from './api';"),
    ];
    let (val, _) = analyse(PrepareOutcome::Unavailable, matches);
    assert!(val.degraded);
    assert_eq!(val.degraded_reason.map(|r| r.as_str()), Some("no_lsp_grep_fallback"));
    let incoming = val.incoming.expect("must be Some from grep");
    assert_eq!(incoming.len(), 2);
    let files: Vec<&str> = incoming.iter().map(|r| r.file.as_str()).collect();
    assert_eq!(files, vec!["src/caller.rs", "web/src/auth.ts"]);
}

#[test]
fn analysis_after_timeout_keeps_the_timeout_reason_only_with_results() {
    let (val, _) = analyse(PrepareOutcome::Timeout, vec![sm("src/x.go", 3, "login()")]);
    assert_eq!(val.degraded_reason, Some(DegradedReason::LspTimeoutGrepFallback));
    let (none, _) = analyse(PrepareOutcome::Timeout, Vec::new());
    assert_eq!(none.degraded_reason, Some(DegradedReason::NoLsp));
}
