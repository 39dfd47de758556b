use pathfinder_nav::deep_context::{
    callee_signature, default_max_dependencies, DependencyCollector,
};

#[test]
fn test_read_with_deep_context_default_max_dependencies_is_50() {
    assert_eq!(
        default_max_dependencies(),
        50,
        "default_max_dependencies must be 50 per the implementation"
    );
}

fn s(x: &str) -> String {
    x.to_string()
}

#[test]
fn dependency_collector_dedups_and_caps() {
    let mut c = DependencyCollector::new(2, true);
    assert!(c.has_room());
    assert!(c.accepts_file("src/token.rs"));
    assert!(!c.accepts_file("/usr/lib/rust/core.rs"));
    assert!(!c.accepts_file("README.md"));
    assert!(c.add(s("src/token.rs::validate"), s("fn validate()"), s("src/token.rs"), 15));
    assert!(!c.add(s("src/token.rs::validate"), s("fn validate()"), s("src/token.rs"), 15));
    assert!(!c.add(s("vendor/x.rs::f"), s("fn f()"), s("vendor/x.rs"), 1));
    assert!(c.add(s("src/db.rs::query"), s("fn query()"), s("src/db.rs"), 3));
    assert!(!c.truncated);
    assert!(!c.has_room());
    assert!(c.truncated);
    assert!(!c.add(s("src/c.rs::g"), s("fn g()"), s("src/c.rs"), 2));
    assert_eq!(c.deps.len(), 2);
    assert_eq!(c.deps[1].line, 3);
}

#[test]
fn dependency_collector_without_project_filter_keeps_any_file() {
    let mut c = DependencyCollector::new(5, false);
    assert!(c.accepts_file("/usr/lib/x.rs"));
    assert!(c.add(s("std::x"), s("fn x()"), s("/usr/lib/x.rs"), 1));
}

#[test]
fn callee_signature_prefers_detail() {
    assert_eq!(callee_signature(&Some(s("fn a() -> u8")), &s("a")), "fn a() -> u8");
    assert_eq!(callee_signature(&None, &s("a")), "a");
}

use pathfinder_nav::deep_context::{
    deep_context_text, deep_resolution_strategy, dependency_resolution, DeepContextDependency,
    DependencySource,
};
use pathfinder_nav::reason::{lsp_readiness, warm_start_in_progress, DegradedReason, LspReadiness};

#[test]
fn deep_context_text_lists_dependencies_and_imports() {
    let deps = vec![DeepContextDependency {
        semantic_path: s("src/token.rs::validate_token"),
        signature: s("fn validate_token() -> bool"),
        file: s("src/token.rs"),
        line: 15,
    }];
    let text = deep_context_text(false, "", &deps, &Vec::new(), "fn login() { }", 4);
    assert_eq!(
        text,
        "1 dependencies loaded\n  fn validate_token() -> bool (src/token.rs:L15)\n\nfn login() { }\n[completed in 4ms]"
    );
    let imports = vec![s("use std::io;"), s("use crate::x;")];
    let degraded = deep_context_text(true, "DEGRADED MODE", &Vec::new(), &imports, "fn f() {}", 0);
    assert_eq!(
        degraded,
        "DEGRADED MODE\n\n0 dependencies loaded\nImports:\nuse std::io;\nuse crate::x;\n\n\nfn f() {}\n[completed in 0ms]"
    );
}

#[test]
fn dependency_resolution_by_source() {
    assert_eq!(dependency_resolution(DependencySource::Outgoing { ok: true }), (false, None, true));
    assert_eq!(
        dependency_resolution(DependencySource::Outgoing { ok: false }),
        (true, Some(DegradedReason::LspErrorGrepFallback), false)
    );
    assert_eq!(dependency_resolution(DependencySource::WarmEmpty), (false, None, true));
    assert_eq!(
        dependency_resolution(DependencySource::RetryOutgoing { ok: false }),
        (true, Some(DegradedReason::LspErrorGrepFallback), true)
    );
    assert_eq!(
        dependency_resolution(DependencySource::Grep { after_lsp: false }),
        (true, Some(DegradedReason::GrepFallbackDependencies), false)
    );
    assert_eq!(deep_resolution_strategy(false, true, None), "lsp_call_hierarchy");
    assert_eq!(deep_resolution_strategy(false, false, None), "treesitter_direct");
    assert_eq!(deep_resolution_strategy(true, false, Some(DegradedReason::NoLsp)), "treesitter_direct");
    assert_eq!(
        deep_resolution_strategy(true, false, Some(DegradedReason::GrepFallbackDependencies)),
        "grep_fallback"
    );
    assert_eq!(
        deep_resolution_strategy(true, true, Some(DegradedReason::LspErrorGrepFallback)),
        "treesitter_fallback"
    );
}

#[test]
fn readiness_from_degradation() {
    assert_eq!(lsp_readiness(false, None), LspReadiness::Ready);
    assert_eq!(lsp_readiness(true, Some(DegradedReason::LspTimeoutGrepFallback)), LspReadiness::WarmingUp);
    assert_eq!(lsp_readiness(true, Some(DegradedReason::NoLsp)), LspReadiness::Unavailable);
    assert_eq!(lsp_readiness(true, None), LspReadiness::Unavailable);
    assert_eq!(warm_start_in_progress(LspReadiness::WarmingUp), Some(true));
    assert_eq!(warm_start_in_progress(LspReadiness::Ready), Some(false));
    assert_eq!(warm_start_in_progress(LspReadiness::Unavailable), None);
    assert_eq!(LspReadiness::WarmingUp.as_str(), "warming_up");
    assert_eq!(DegradedReason::GrepFallbackImplScoped.as_str(), "grep_fallback_impl_scoped");
}

use pathfinder_nav::deep_context::{
    next_dependency_step, DependencyAction, DependencyEvent, DependencyStep, PrepareAnswer,
};

fn run_steps(events: &[DependencyEvent]) -> (DependencyStep, DependencyAction) {
    let mut state = (DependencyStep::Preparing, DependencyAction::PrepareCallHierarchy);
    for e in events {
        state = next_dependency_step(state.0, *e);
    }
    state
}

#[test]
fn test_read_with_deep_context_empty_hierarchy_warmup_degrades() {
    // A: the server resolves the definition after an empty hierarchy.
    let a = run_steps(&[
        DependencyEvent::Prepared(PrepareAnswer::Empty),
        DependencyEvent::DefinitionProbed { resolved: true },
    ]);
    assert_eq!(a.1, DependencyAction::Finish(DependencySource::WarmEmpty));
    assert_eq!(dependency_resolution(DependencySource::WarmEmpty), (false, None, true));
    // B: cold server, empty retry, then the text search.
    let b = run_steps(&[
        DependencyEvent::Prepared(PrepareAnswer::Empty),
        DependencyEvent::DefinitionProbed { resolved: false },
    ]);
    assert_eq!(b.1, DependencyAction::WaitThenPrepare);
    let b = next_dependency_step(b.0, DependencyEvent::Prepared(PrepareAnswer::Empty));
    assert_eq!(b.1, DependencyAction::SearchCandidates);
    let b = next_dependency_step(b.0, DependencyEvent::Searched);
    assert_eq!(b.1, DependencyAction::Finish(DependencySource::Grep { after_lsp: true }));
    assert_eq!(
        dependency_resolution(DependencySource::Grep { after_lsp: true }).1,
        Some(DegradedReason::GrepFallbackDependencies)
    );
    // C: the retry finds items and their outgoing calls.
    let c = run_steps(&[
        DependencyEvent::Prepared(PrepareAnswer::Empty),
        DependencyEvent::DefinitionProbed { resolved: false },
        DependencyEvent::Prepared(PrepareAnswer::Items),
    ]);
    assert_eq!(c.1, DependencyAction::FetchOutgoing);
    let c = next_dependency_step(c.0, DependencyEvent::OutgoingFetched { ok: true });
    assert_eq!(c.1, DependencyAction::Finish(DependencySource::RetryOutgoing { ok: true }));
    assert_eq!(dependency_resolution(DependencySource::RetryOutgoing { ok: true }).0, false);
}

#[test]
fn dependency_steps_for_errors_and_items() {
    let e = run_steps(&[DependencyEvent::Prepared(PrepareAnswer::Failed), DependencyEvent::Searched]);
    assert_eq!(e.1, DependencyAction::Finish(DependencySource::Grep { after_lsp: false }));
    let i = run_steps(&[
        DependencyEvent::Prepared(PrepareAnswer::Items),
        DependencyEvent::OutgoingFetched { ok: false },
    ]);
    assert_eq!(i.1, DependencyAction::Finish(DependencySource::Outgoing { ok: false }));
    let stray = run_steps(&[DependencyEvent::Searched]);
    assert_eq!(stray, (DependencyStep::Preparing, DependencyAction::PrepareCallHierarchy));
}
