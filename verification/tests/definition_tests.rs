use pathfinder_nav::definition::{
    definition_needs_grep, definition_needs_retry, definition_text, file_glob, global_pattern,
    grep_definition, impl_pattern, impl_search_glob, method_pattern, next_grep_strategy,
    resolve_definition, symbol_and_parent, word_pattern, DefinitionError, GotoOutcome,
    GrepStrategy, LspDefinition, SearchMatch,
};
use pathfinder_nav::reason::{DegradedReason, LspReadiness};

fn m(file: &str, line: u64, content: &str) -> SearchMatch {
    SearchMatch {
        file: file.to_string(),
        line,
        column: 5,
        content: content.to_string(),
        enclosing_semantic_path: None,
    }
}

fn lsp_def() -> LspDefinition {
    LspDefinition {
        file: "src/auth.rs".to_string(),
        line: 42,
        column: 8,
        preview: "pub fn login() -> bool {".to_string(),
    }
}

#[test]
fn patterns_escape_the_names() {
    assert_eq!(word_pattern("a.b"), "\\ba\\.b\\b");
    assert_eq!(word_pattern("login"), "\\blogin\\b");
    assert_eq!(impl_pattern("Vec<T>"), "impl\\s+(?:<[^>]+>\\s+)?Vec<T>\\b");
    assert_eq!(impl_pattern("A-B"), "impl\\s+(?:<[^>]+>\\s+)?A\\-B\\b");
    assert_eq!(method_pattern("src/x.py", "run"), "(?:async\\s+)?def\\s+run\\b");
    assert_eq!(method_pattern("x.go", "Run"), "func\\s+(?:\\([^)]*\\)\\s+)?Run\\b");
    assert_eq!(method_pattern("README", "f$"), "\\bf\\$\\b");
    assert!(global_pattern("x+y").ends_with("\\s+x\\+y\\b"));
}

#[test]
fn globs() {
    assert_eq!(impl_search_glob("src/lib.rs"), "**/*.rs");
    assert_eq!(impl_search_glob("Makefile"), "**/*.");
    assert_eq!(file_glob("src\\server\\mod.rs"), "src/server/mod.rs");
}

#[test]
fn grep_strategies_in_order() {
    let mut seen = Vec::new();
    let mut cur = None;
    while let Some(s) = next_grep_strategy(cur, true) {
        seen.push(s);
        cur = Some(s);
    }
    assert_eq!(
        seen,
        vec![GrepStrategy::File, GrepStrategy::Impl, GrepStrategy::Global, GrepStrategy::Broad]
    );
    assert_eq!(next_grep_strategy(Some(GrepStrategy::File), false), Some(GrepStrategy::Global));
}

#[test]
fn symbol_and_parent_of_chains() {
    let segs = vec!["Sandbox".to_string(), "check".to_string()];
    assert_eq!(
        symbol_and_parent(&segs),
        Some(("check".to_string(), Some("Sandbox".to_string())))
    );
    assert_eq!(symbol_and_parent(&vec!["f".to_string()]), Some(("f".to_string(), None)));
    assert_eq!(symbol_and_parent(&Vec::new()), None);
}

#[test]
fn grep_definition_reports_the_strategy() {
    let d = grep_definition(&m("src/a.rs", 7, "fn login()"), GrepStrategy::Impl);
    assert_eq!(d.file, "src/a.rs");
    assert_eq!(d.line, 7);
    assert_eq!(d.column, 5);
    assert!(d.degraded);
    assert_eq!(d.degraded_reason, Some(DegradedReason::GrepFallbackImplScoped));
    assert_eq!(d.lsp_readiness, Some(LspReadiness::Unavailable));
    assert_eq!(d.resolution_strategy.as_deref(), Some("grep_impl"));
    let big = grep_definition(&m("b.rs", u64::MAX, ""), GrepStrategy::Broad);
    assert_eq!(big.line, u32::MAX);
    assert_eq!(big.degraded_reason, Some(DegradedReason::GrepFallbackGlobal));
    assert_eq!(big.resolution_strategy.as_deref(), Some("grep_broad"));
}

#[test]
fn retry_and_grep_decisions() {
    assert!(definition_needs_retry(&GotoOutcome::NotFound));
    assert!(!definition_needs_retry(&GotoOutcome::Timeout));
    assert!(!definition_needs_grep(&GotoOutcome::Found(lsp_def()), &None));
    assert!(definition_needs_grep(&GotoOutcome::NoLsp, &None));
    assert!(!definition_needs_grep(&GotoOutcome::NotFound, &Some(GotoOutcome::Found(lsp_def()))));
    assert!(definition_needs_grep(&GotoOutcome::NotFound, &Some(GotoOutcome::NotFound)));
}

#[test]
fn definition_test_test_get_definition_routes_to_lawyer_success() {
    let r = resolve_definition(
        GotoOutcome::Found(lsp_def()),
        None,
        None,
        "src/auth.rs::login",
        Vec::new(),
        true,
        "rust",
        3,
    );
    let val = match r {
        Ok(v) => v,
        Err(_) => panic!("should succeed"),
    };
    assert_eq!(val.file, "src/auth.rs");
    assert_eq!(val.line, 42);
    assert_eq!(val.preview, "pub fn login() -> bool {");
    assert!(!val.degraded);
    assert_eq!(val.resolution_strategy.as_deref(), Some("lsp"));
    assert_eq!(
        definition_text(&val, ""),
        "src/auth.rs:L42 col:8 — pub fn login() -> bool {\n[completed in 3ms]"
    );
}

#[test]
fn no_lsp_without_grep_match_is_an_error() {
    let r = resolve_definition(GotoOutcome::NoLsp, None, None, "a.rs::f", Vec::new(), true, "rust", 1);
    match r {
        Err(DefinitionError::NoLspAvailable { language }) => assert_eq!(language, "rust"),
        _ => panic!("expected NoLspAvailable"),
    }
    let t = resolve_definition(GotoOutcome::Timeout, None, None, "a.rs::f", Vec::new(), true, "rust", 1);
    match t {
        Err(DefinitionError::LspError { message }) => {
            assert_eq!(message, "LSP timed out and grep fallback found no match")
        }
        _ => panic!("expected LspError"),
    }
}

#[test]
fn definition_test_test_get_definition_lsp_error_no_grep_match_returns_lsp_error() {
    let r = resolve_definition(
        GotoOutcome::Failed("connection lost".to_string()),
        None,
        None,
        "src/auth.rs::login",
        Vec::new(),
        true,
        "rust",
        2,
    );
    match r {
        Err(DefinitionError::LspError { message }) => assert_eq!(message, "connection lost"),
        _ => panic!("expected LspError"),
    }
}

#[test]
fn definition_test_test_get_definition_generic_lsp_error_falls_back_to_grep() {
    let g = grep_definition(&m("src/auth.rs", 1, "fn login() -> bool { true }"), GrepStrategy::File);
    let r = resolve_definition(
        GotoOutcome::Failed("boom".to_string()),
        None,
        Some(g),
        "src/auth.rs::login",
        Vec::new(),
        true,
        "rust",
        9,
    );
    let d = match r {
        Ok(d) => d,
        Err(_) => panic!("grep answer expected"),
    };
    assert!(d.degraded);
    assert_eq!(d.degraded_reason, Some(DegradedReason::LspErrorGrepFallback));
    assert_eq!(d.duration_ms, Some(9));
    assert_eq!(
        definition_text(&d, "DEGRADED"),
        "DEGRADED\nsrc/auth.rs:L1 — fn login() -> bool { true }\n[completed in 9ms]"
    );
}

#[test]
fn impl_scoped_reason_is_kept() {
    let g = grep_definition(&m("src/s.rs", 3, "fn check()"), GrepStrategy::Impl);
    let r = resolve_definition(GotoOutcome::NoLsp, None, Some(g), "p::check", Vec::new(), true, "rust", 0);
    let d = match r {
        Ok(d) => d,
        Err(_) => panic!("grep answer expected"),
    };
    assert_eq!(d.degraded_reason, Some(DegradedReason::GrepFallbackImplScoped));
}

#[test]
fn definition_test_test_get_definition_lsp_none_no_grep_fallback_returns_symbol_not_found() {
    let r = resolve_definition(
        GotoOutcome::NotFound,
        Some(GotoOutcome::NotFound),
        None,
        "src/auth.rs::login",
        vec!["logout".to_string()],
        false,
        "rust",
        5,
    );
    match r {
        Err(DefinitionError::SymbolNotFound { semantic_path, did_you_mean, retry_after_seconds }) => {
            assert_eq!(semantic_path, "src/auth.rs::login");
            assert_eq!(did_you_mean, vec!["logout".to_string()]);
            assert_eq!(retry_after_seconds, Some(10));
        }
        _ => panic!("expected SymbolNotFound"),
    }
}

#[test]
fn empty_preview_shows_placeholder() {
    let mut d = grep_definition(&m("a.rs", 2, ""), GrepStrategy::Global);
    d.duration_ms = None;
    assert_eq!(definition_text(&d, "N"), "N\na.rs:L2 — (no preview)\n[completed in 0ms]");
}
