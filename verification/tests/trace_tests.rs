use pathfinder_nav::analyze::{analysis_text, analyze_needs_grep, resolve_analysis};
use pathfinder_nav::bfs::{CallDecision, CallDirection, CallHierarchyBfs, CallItem, FileSet, ImpactReference};
use pathfinder_nav::definition::SearchMatch;
use pathfinder_nav::fallback::{
    outgoing_match_allowed, select_impact_matches, select_reference_matches, OutgoingCollector,
};
use pathfinder_nav::impact::{
    process_grep_fallback_results, references_truncated, resolution_strategy, resolve_trace,
    trace_limits, trace_needs_grep, trace_text, zero_callers_hint, PrepareOutcome,
};
use pathfinder_nav::reason::DegradedReason;

fn item(name: &str, file: &str, line: u32) -> CallItem {
    CallItem { name: name.to_string(), detail: None, file: file.to_string(), line }
}

fn sm(file: &str, line: u64, content: &str, enclosing: Option<&str>) -> SearchMatch {
    SearchMatch {
        file: file.to_string(),
        line,
        column: 1,
        content: content.to_string(),
        enclosing_semantic_path: enclosing.map(|s| s.to_string()),
    }
}

/// Callers of each item name in a toy call graph.
fn callers(name: &str) -> Vec<CallItem> {
    match name {
        "login" => vec![item("handle_request", "src/server.rs", 10), item("test_login", "tests/x.md", 1)],
        "handle_request" => vec![item("main", "src/main.rs", 3), item("login", "src/auth.rs", 5)],
        "main" => vec![item("start", "src/boot.rs", 1)],
        _ => Vec::new(),
    }
}

fn run_bfs(max_depth: u32, budget: u32, failing: bool) -> (CallHierarchyBfs, FileSet) {
    let mut files = FileSet::new();
    let mut bfs = CallHierarchyBfs::new(
        item("login", "src/auth.rs", 5),
        CallDirection::Incoming,
        max_depth,
        true,
        budget,
        &mut files,
    );
    while let Some(i) = bfs.next(false) {
        if failing {
            bfs.calls_failed();
            continue;
        }
        bfs.calls_succeeded();
        let name = bfs.nodes[i].0.name.clone();
        for c in callers(&name) {
            match bfs.consider_call(&c, &mut files) {
                CallDecision::Stop => break,
                CallDecision::Skip => continue,
                CallDecision::New => {
                    let sp = format!("{}::{}", c.file, c.name);
                    bfs.record_new(c, sp);
                }
            }
        }
    }
    (bfs, files)
}

#[test]
fn bfs_walks_callers_breadth_first() {
    let (bfs, files) = run_bfs(5, 100, false);
    let paths: Vec<&str> = bfs.references.iter().map(|r| r.semantic_path.as_str()).collect();
    assert_eq!(paths, vec!["src/server.rs::handle_request", "src/main.rs::main", "src/boot.rs::start"]);
    let depths: Vec<usize> = bfs.references.iter().map(|r| r.depth).collect();
    assert_eq!(depths, vec![0, 1, 2]);
    assert!(bfs.references.iter().all(|r| r.direction == "incoming"));
    assert_eq!(bfs.references[0].confidence.as_deref(), Some("lsp"));
    assert_eq!(bfs.max_depth_reached, 3);
    assert_eq!(files.len(), 4);
}

#[test]
fn bfs_respects_max_depth_and_budget() {
    let (bfs, _) = run_bfs(1, 100, false);
    assert_eq!(bfs.references.len(), 1);
    let (bfs2, _) = run_bfs(5, 2, false);
    assert_eq!(bfs2.references.len(), 2);
    assert_eq!(bfs2.remaining, 0);
}

#[test]
fn bfs_stops_after_consecutive_failures() {
    let (bfs, _) = run_bfs(5, 100, true);
    assert!(bfs.references.is_empty());
    assert!(bfs.finished);
    assert_eq!(bfs.consecutive_failures, 1);
}

#[test]
fn trace_limits_clamp_and_split() {
    let l = trace_limits(0, 0);
    assert_eq!((l.max_depth, l.max_references, l.remaining_incoming, l.remaining_outgoing), (1, 1, 1, 0));
    let l = trace_limits(9, 1000);
    assert_eq!((l.max_depth, l.max_references, l.remaining_incoming, l.remaining_outgoing), (5, 500, 250, 250));
    let l = trace_limits(3, 7);
    assert_eq!((l.remaining_incoming, l.remaining_outgoing), (4, 3));
}

#[test]
fn reference_fallback_selects_source_matches() {
    let matches = vec![
        sm("src/auth.rs", 3, "fn login()", None),
        sm("docs/guide.md", 4, "login", None),
        sm("src/server.rs", 12, "    login();  ", Some("src/server.rs::handle")),
        sm("./src/auth.rs", 9, "login", None),
        sm("web/app.ts", u64::MAX, "login()", None),
    ];
    let mut files = FileSet::new();
    let refs = select_reference_matches(matches, "login", "src/auth.rs", &mut files).unwrap();
    assert_eq!(refs.len(), 3);
    assert_eq!(refs[0].semantic_path, "src/server.rs::handle");
    assert_eq!(refs[0].line, 12);
    assert_eq!(refs[0].direction, "incoming_heuristic");
    assert_eq!(refs[0].confidence.as_deref(), Some("heuristic"));
    assert_eq!(refs[1].semantic_path, "./src/auth.rs::login");
    assert_eq!(refs[2].line, usize::MAX);
    assert_eq!(files.len(), 3);
    let mut files2 = FileSet::new();
    assert!(select_reference_matches(vec![sm("a.md", 1, "x", None)], "x", "b.rs", &mut files2).is_none());
    assert_eq!(files2.len(), 0);
}

#[test]
fn reference_fallback_keeps_ten() {
    let matches: Vec<SearchMatch> = (0..15).map(|i| sm(&format!("src/f{i}.rs"), i, "x", None)).collect();
    let mut files = FileSet::new();
    let refs = select_reference_matches(matches, "x", "src/def.rs", &mut files).unwrap();
    assert_eq!(refs.len(), 10);
    assert_eq!(refs[9].file, "src/f9.rs");
    assert_eq!(files.len(), 10);
}

#[test]
fn impact_fallback_uses_file_and_symbol() {
    let mut files = FileSet::new();
    let refs = select_impact_matches(
        vec![sm("README.md", 1, "login", None), sm("src/a.py", 2, "login()", Some("a::b"))],
        "login",
        "src/auth.rs",
        &mut files,
    )
    .unwrap();
    assert_eq!(refs.len(), 1);
    assert_eq!(refs[0].semantic_path, "src/a.py::login");
    assert_eq!(refs[0].confidence, None);
    let only_docs = select_impact_matches(vec![sm("README.md", 1, "x", None)], "x", "a.rs", &mut files);
    assert_eq!(only_docs.map(|v| v.len()), Some(0));
    assert!(select_impact_matches(Vec::new(), "x", "a.rs", &mut files).is_none());
}

#[test]
fn outgoing_collector_one_callee_per_candidate() {
    let mut files = FileSet::new();
    let mut c = OutgoingCollector::new(2, "src/auth.rs".to_string(), true);
    assert!(c.begin_candidate());
    assert!(outgoing_match_allowed("src/token.rs", "src/auth.rs", true));
    assert!(!outgoing_match_allowed("src/auth.rs", "src/auth.rs", true));
    assert!(!outgoing_match_allowed("/usr/lib/x.rs", "src/auth.rs", true));
    assert!(outgoing_match_allowed("/usr/lib/x.rs", "src/auth.rs", false));
    assert!(c.record(sm("src/token.rs", 15, "fn validate()", None), "src/token.rs::validate".to_string(), &mut files));
    assert!(!c.candidate_open());
    assert!(c.begin_candidate());
    assert!(!c.record(sm("src/token.rs", 15, "fn validate()", None), "src/token.rs::validate".to_string(), &mut files));
    assert!(c.candidate_open());
    assert!(c.record(sm("src/db.rs", 2, "fn query()", None), "src/db.rs::query".to_string(), &mut files));
    assert!(!c.begin_candidate());
    let refs = c.finish().unwrap();
    assert_eq!(refs.len(), 2);
    assert_eq!(refs[1].direction, "outgoing_heuristic");
    assert_eq!(refs[1].depth, 0);
    assert_eq!(files.len(), 2);
    assert!(OutgoingCollector::new(0, String::new(), false).finish().is_none());
    let mut d = OutgoingCollector::new(3, "src/auth.rs".to_string(), true);
    assert!(d.begin_candidate());
    assert!(!d.allows("src/auth.rs"));
    assert!(!d.record(sm("src/auth.rs", 1, "fn login()", None), "src/auth.rs::login".to_string(), &mut files));
    assert!(!d.record(sm("vendor/x.rs", 1, "fn v()", None), "vendor/x.rs::v".to_string(), &mut files));
    assert!(d.candidate_open());
    assert!(d.finish().is_none());
}

fn r(sp: &str) -> ImpactReference {
    ImpactReference {
        semantic_path: sp.to_string(),
        file: "src/a.rs".to_string(),
        line: 3,
        snippet: "  a();  ".to_string(),
        direction: "incoming".to_string(),
        depth: 0,
        confidence: Some("lsp".to_string()),
    }
}

#[test]
fn trace_resolution_by_outcome() {
    assert!(trace_needs_grep(PrepareOutcome::Items, true, true));
    assert!(!trace_needs_grep(PrepareOutcome::Items, false, true));
    assert!(trace_needs_grep(PrepareOutcome::Timeout, false, false));

    let t = resolve_trace(PrepareOutcome::Items, vec![r("a")], Vec::new(), None, None);
    assert!(!t.degraded);
    assert_eq!(t.degraded_reason, None);
    assert_eq!(resolution_strategy(t.degraded, t.used_lsp, t.degraded_reason), "lsp_call_hierarchy");

    let t = resolve_trace(PrepareOutcome::EmptyCold, Vec::new(), Vec::new(), None, None);
    assert_eq!(t.degraded_reason, Some(DegradedReason::LspWarmupEmptyUnverified));
    assert!(t.incoming.is_none());
    assert_eq!(resolution_strategy(t.degraded, t.used_lsp, t.degraded_reason), "treesitter_fallback");

    let t = resolve_trace(PrepareOutcome::Unavailable, Vec::new(), Vec::new(), Some(vec![r("g")]), None);
    assert_eq!(t.degraded_reason, Some(DegradedReason::NoLspGrepFallback));
    assert_eq!(resolution_strategy(t.degraded, t.used_lsp, t.degraded_reason), "grep_file_scoped");

    let t = resolve_trace(PrepareOutcome::Timeout, Vec::new(), Vec::new(), None, None);
    assert_eq!(t.degraded_reason, Some(DegradedReason::LspTimeoutGrepFallback));

    let t = resolve_trace(PrepareOutcome::EmptyWarm, Vec::new(), Vec::new(), None, None);
    assert!(t.degraded);
    assert_eq!(t.incoming.map(|v| v.len()), Some(0));
}

#[test]
fn grep_results_replace_lists() {
    let mut inc = None;
    let mut out = Some(vec![r("x")]);
    let mut reason = Some(DegradedReason::LspWarmupEmptyUnverified);
    process_grep_fallback_results(
        Some(vec![r("a"), r("b")]),
        None,
        &mut inc,
        &mut out,
        &mut reason,
        Some(DegradedReason::LspWarmupGrepFallback),
    );
    assert_eq!(inc.map(|v| v.len()), Some(2));
    assert_eq!(out.map(|v| v.len()), Some(1));
    assert_eq!(reason, Some(DegradedReason::LspWarmupGrepFallback));
    let mut reason2 = Some(DegradedReason::LspTimeoutGrepFallback);
    let (mut i2, mut o2) = (None, None);
    process_grep_fallback_results(None, None, &mut i2, &mut o2, &mut reason2, Some(DegradedReason::NoLsp));
    assert_eq!(reason2, Some(DegradedReason::LspTimeoutGrepFallback));
}

#[test]
fn truncation_and_hint() {
    assert!(references_truncated(3, 2, 5));
    assert!(!references_truncated(3, 1, 5));
    assert!(!references_truncated(0, 0, 0));
    assert!(zero_callers_hint(false, &Some(Vec::new())).is_some());
    assert!(zero_callers_hint(true, &Some(Vec::new())).is_none());
    assert!(zero_callers_hint(false, &None).is_none());
    assert!(zero_callers_hint(false, &Some(vec![r("a")])).is_none());
}

#[test]
fn trace_text_lists_references() {
    let text = trace_text(false, "", "login", &Some(vec![r("src/a.rs::a")]), &Some(Vec::new()), 7);
    assert_eq!(
        text,
        "LSP confirmed: zero outgoing callees (callers found below).\nIncoming references: 1\n  [depth=0] src/a.rs::a (src/a.rs:L3)\n    > a();\nOutgoing references: 0\n[completed in 7ms]"
    );
    let degraded = trace_text(true, "NOTICE", "", &None, &None, 1);
    assert!(degraded.starts_with("NOTICE\n\n   Common causes:"));
    assert!(degraded.contains("   Workaround: Use search to find usages manually."));
    let named = trace_text(true, "N", "login", &None, &None, 1);
    assert!(named.contains("Use search(query=\"login\") to find usages manually."));
}

#[test]
fn impact_analysis_resolution_and_text() {
    assert!(analyze_needs_grep(PrepareOutcome::EmptyCold));
    assert!(!analyze_needs_grep(PrepareOutcome::Failed));
    assert!(!analyze_needs_grep(PrepareOutcome::Items));

    let a = resolve_analysis(PrepareOutcome::Items, vec![r("src/a.rs::a")], Vec::new(), None);
    assert!(!a.degraded);
    assert_eq!(
        analysis_text(&a),
        "Incoming references: 1\n  [depth=0] src/a.rs::a (src/a.rs:L3)\n    > a();\nOutgoing references: 0"
    );

    let w = resolve_analysis(PrepareOutcome::EmptyWarm, Vec::new(), Vec::new(), None);
    assert_eq!(w.incoming.as_ref().map(|v| v.len()), Some(0));
    assert!(!w.degraded);

    let t = resolve_analysis(PrepareOutcome::Timeout, Vec::new(), Vec::new(), Some(Vec::new()));
    assert_eq!(t.degraded_reason, Some(DegradedReason::LspTimeoutGrepFallback));
    let n = resolve_analysis(PrepareOutcome::Unavailable, Vec::new(), Vec::new(), None);
    assert_eq!(n.degraded_reason, Some(DegradedReason::NoLsp));
    assert_eq!(
        analysis_text(&n),
        "Degraded analysis (no_lsp) — LSP unavailable — reference counts are UNRELIABLE. Do NOT trust zero as 'confirmed no callers'. Grep-based heuristic was used if available. Use search_codebase for manual verification.\nIncoming references: 0\nOutgoing references: 0"
    );
    let c = resolve_analysis(PrepareOutcome::EmptyCold, Vec::new(), Vec::new(), Some(vec![r("x")]));
    assert_eq!(c.degraded_reason, Some(DegradedReason::LspWarmupGrepFallback));
    let f = resolve_analysis(PrepareOutcome::Failed, Vec::new(), Vec::new(), Some(vec![r("x")]));
    assert!(f.incoming.is_none());
}
