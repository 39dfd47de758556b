use pathfinder_nav::health::{
    classify_language, health_text, indexing_status, liveness_probe_action, merge_overall,
    warming_probe_action, HealthReport, HealthStatus, IndexingStatus, LspLanguageStatus,
    MissingLanguage, ProbeAction, ProbeCacheState,
};

fn status(ready: Option<bool>, indexed: Option<bool>, uptime: Option<u64>) -> LspLanguageStatus {
    LspLanguageStatus {
        navigation_ready: ready,
        indexing_complete: indexed,
        uptime_seconds: uptime,
        supports_definition: Some(true),
        supports_call_hierarchy: Some(true),
        supports_diagnostics: Some(true),
        diagnostics_strategy: Some("pull".to_string()),
        server_name: None,
        registrations_received: None,
        indexing_progress_percent: None,
        indexing_source: None,
        indexing_duration_secs: None,
    }
}

fn report_text(caps: Vec<(String, LspLanguageStatus)>) -> (pathfinder_nav::health::LspHealthResponse, String) {
    let report = HealthReport::new(&caps, &None);
    let resp = report.finish(&Vec::new(), &None, true);
    let text = health_text(&resp);
    (resp, text)
}

#[test]
fn test_lsp_health_server_name_in_output() {
    let mut s = status(Some(true), Some(true), Some(60));
    s.server_name = Some("rust-analyzer".to_string());
    s.registrations_received = Some(3);
    let (val, text) = report_text(vec![("rust".to_string(), s)]);
    assert_eq!(val.languages.len(), 1);
    assert_eq!(val.languages[0].server_name, Some("rust-analyzer".to_string()));
    assert_eq!(val.languages[0].registrations_received, Some(3));
    assert!(text.contains("server: rust-analyzer"), "got: {text}");
    assert!(text.contains("registrations: 3"), "got: {text}");
}

#[test]
fn test_lsp_health_registrations_zero_omitted_from_text() {
    let mut s = status(Some(true), Some(true), Some(10));
    s.diagnostics_strategy = Some("push".to_string());
    s.registrations_received = Some(0);
    let (_, text) = report_text(vec![("go".to_string(), s)]);
    assert!(!text.contains("registrations:"), "got: {text}");
    assert!(!text.contains("server:"), "got: {text}");
}

#[test]
fn test_health_indexing_complete_false_when_one_indexing() {
    let rust = status(Some(true), Some(true), Some(30));
    let mut go = status(Some(true), Some(false), Some(5));
    go.indexing_progress_percent = Some(45);
    let (val, _) = report_text(vec![("rust".to_string(), rust), ("go".to_string(), go)]);
    assert!(!val.indexing_complete);
}

#[test]
fn test_health_indexing_complete_true_when_all_done() {
    let rust = status(Some(true), Some(true), Some(30));
    let go = status(Some(true), Some(true), Some(5));
    let (val, _) = report_text(vec![("rust".to_string(), rust), ("go".to_string(), go)]);
    assert!(val.indexing_complete);
    assert_eq!(val.status, HealthStatus::Ready);
}

#[test]
fn test_lsp_health_grace_period_known_limitation() {
    let mut s = status(None, Some(false), Some(3));
    s.supports_definition = None;
    s.supports_call_hierarchy = None;
    s.supports_diagnostics = None;
    s.diagnostics_strategy = None;
    s.server_name = Some("jdtls".to_string());
    s.registrations_received = Some(0);
    let (val, _) = report_text(vec![("java".to_string(), s)]);
    assert!(val
        .known_limitations
        .iter()
        .any(|l| l.contains("java") && l.contains("dynamic capability registration")));
}

#[test]
fn test_lsp_health_no_grace_period_limitation_when_ready() {
    let mut s = status(Some(true), Some(true), Some(30));
    s.server_name = Some("rust-analyzer".to_string());
    s.registrations_received = Some(5);
    let (val, _) = report_text(vec![("rust".to_string(), s)]);
    assert!(!val
        .known_limitations
        .iter()
        .any(|l| l.contains("dynamic capability registration")));
}

#[test]
fn classification_of_one_language() {
    assert_eq!(classify_language(&status(Some(true), Some(false), Some(61))), (HealthStatus::Ready, Some("1m1s".to_string())));
    assert_eq!(classify_language(&status(Some(false), None, Some(5))).0, HealthStatus::WarmingUp);
    assert_eq!(classify_language(&status(None, Some(false), None)), (HealthStatus::WarmingUp, None));
    assert_eq!(classify_language(&status(None, None, Some(2))).0, HealthStatus::Starting);
    assert_eq!(classify_language(&status(None, None, None)), (HealthStatus::Unavailable, None));
    assert_eq!(indexing_status(Some(true)), Some(IndexingStatus::Complete));
    assert_eq!(indexing_status(Some(false)), Some(IndexingStatus::InProgress));
    assert_eq!(indexing_status(None), None);
}

#[test]
fn overall_status_is_the_best_seen() {
    let mut o = HealthStatus::Unavailable;
    for s in [HealthStatus::Starting, HealthStatus::WarmingUp, HealthStatus::Unavailable] {
        o = merge_overall(o, s);
    }
    assert_eq!(o, HealthStatus::WarmingUp);
    assert_eq!(merge_overall(o, HealthStatus::Ready), HealthStatus::Ready);
    assert_eq!(merge_overall(HealthStatus::Ready, HealthStatus::Starting), HealthStatus::Ready);
}

#[test]
fn probe_cache_decisions() {
    let pos = ProbeCacheState { success: true, call_hierarchy_verified: true, valid: true, age_secs: 10 };
    let old_pos = ProbeCacheState { age_secs: 120, ..pos };
    let neg = ProbeCacheState { success: false, call_hierarchy_verified: false, valid: true, age_secs: 1 };
    let expired = ProbeCacheState { valid: false, ..neg };
    assert_eq!(warming_probe_action(Some(pos), false), ProbeAction::UseCachedReady { call_hierarchy_verified: true });
    assert_eq!(warming_probe_action(Some(neg), false), ProbeAction::SkipProbe);
    assert_eq!(warming_probe_action(Some(expired), false), ProbeAction::Probe);
    assert_eq!(warming_probe_action(None, false), ProbeAction::Probe);
    assert_eq!(liveness_probe_action(Some(pos), 30, false), ProbeAction::UseCachedReady { call_hierarchy_verified: true });
    assert_eq!(liveness_probe_action(Some(old_pos), 30, false), ProbeAction::Probe);
    assert_eq!(liveness_probe_action(Some(neg), 30, false), ProbeAction::SkipProbe);
}

#[test]
fn missing_languages_join_the_report() {
    let caps = vec![("rust".to_string(), status(Some(true), Some(true), Some(30)))];
    let missing = vec![MissingLanguage {
        language_id: "python".to_string(),
        install_hint: "pip install pyright".to_string(),
    }];
    let report = HealthReport::new(&caps, &None);
    let resp = report.finish(&missing, &None, true);
    assert_eq!(resp.languages.len(), 2);
    assert_eq!(resp.languages[1].language, "python");
    assert_eq!(resp.languages[1].install_hint.as_deref(), Some("pip install pyright"));
    let filtered = HealthReport::new(&caps, &Some("python".to_string())).finish(&missing, &Some("python".to_string()), true);
    assert_eq!(filtered.languages.len(), 1);
    assert_eq!(filtered.languages[0].language, "python");
}

use pathfinder_nav::health::{probe_asks_call_hierarchy, probe_verdict, status_str, ProbeStep};

#[test]
fn probe_verdicts() {
    assert!(!probe_asks_call_hierarchy(ProbeStep::TimedOut, Some(true)));
    assert!(probe_asks_call_hierarchy(ProbeStep::Answered, Some(true)));
    assert!(!probe_asks_call_hierarchy(ProbeStep::Answered, None));
    assert_eq!(probe_verdict(ProbeStep::Failed, Some(true), None), (false, false));
    assert_eq!(probe_verdict(ProbeStep::Answered, None, None), (true, false));
    assert_eq!(probe_verdict(ProbeStep::Answered, Some(true), Some(ProbeStep::Answered)), (true, true));
    assert_eq!(probe_verdict(ProbeStep::Answered, Some(true), Some(ProbeStep::TimedOut)), (false, false));
}

#[test]
fn probes_upgrade_and_downgrade_languages() {
    let caps = vec![
        ("go".to_string(), status(Some(false), Some(false), Some(30))),
        ("rust".to_string(), status(Some(true), Some(true), Some(30))),
        ("java".to_string(), status(None, Some(false), Some(5))),
    ];
    let mut report = HealthReport::new(&caps, &None);
    assert_eq!(report.overall, HealthStatus::Ready);
    assert!(report.warming_probe_due(0));
    assert!(!report.warming_probe_due(1));
    assert!(!report.warming_probe_due(2));
    report.mark_probe_ready(0, true);
    assert_eq!(report.languages[0].status, HealthStatus::Ready);
    assert!(report.languages[0].call_hierarchy_verified);
    report.mark_dead(1);
    assert_eq!(report.languages[1].status, HealthStatus::Degraded);
    assert_eq!(report.languages[1].navigation_tested, Some(false));
    report.mark_dead(0);
    let resp = report.finish(&Vec::new(), &None, false);
    assert_eq!(resp.status, HealthStatus::Degraded);
    assert_eq!(status_str(resp.status), "degraded");
    assert!(!resp.warm_start_complete);
}

#[test]
fn alive_languages_are_marked_verified() {
    let caps = vec![("rust".to_string(), status(Some(true), Some(true), Some(30)))];
    let mut report = HealthReport::new(&caps, &None);
    report.mark_alive(0, false);
    assert!(report.languages[0].probe_verified);
    assert_eq!(report.languages[0].status, HealthStatus::Ready);
    let resp = report.finish(&Vec::new(), &None, true);
    assert_eq!(resp.status, HealthStatus::Ready);
}

use pathfinder_nav::health::{probe_interval, staleness_threshold};

#[test]
fn probe_intervals_by_uptime() {
    assert_eq!(probe_interval(Some(5)), 10);
    assert_eq!(probe_interval(Some(60)), 10);
    assert_eq!(probe_interval(Some(61)), 30);
    assert_eq!(probe_interval(Some(90)), 30);
    assert_eq!(probe_interval(Some(300)), 30);
    assert_eq!(probe_interval(Some(301)), 120);
    assert_eq!(probe_interval(Some(350)), 120);
    assert_eq!(staleness_threshold(Some(350)), 30);
    assert_eq!(staleness_threshold(Some(15)), 10);
}

#[test]
fn forced_and_stale_probes() {
    let fresh = ProbeCacheState { success: true, call_hierarchy_verified: true, valid: true, age_secs: 5 };
    let stale = ProbeCacheState { age_secs: 35, ..fresh };
    let t = staleness_threshold(Some(350));
    assert_eq!(liveness_probe_action(Some(fresh), t, false), ProbeAction::UseCachedReady { call_hierarchy_verified: true });
    assert_eq!(liveness_probe_action(Some(stale), t, false), ProbeAction::Probe);
    assert_eq!(liveness_probe_action(Some(fresh), t, true), ProbeAction::Probe);
    assert_eq!(warming_probe_action(Some(fresh), true), ProbeAction::Probe);
}

#[test]
fn test_health_degraded_status_has_navigation_verified_false() {
    let caps = vec![("rust".to_string(), status(Some(true), Some(true), Some(120)))];
    let mut report = HealthReport::new(&caps, &Some("rust".to_string()));
    report.mark_dead(0);
    let val = report.finish(&Vec::new(), &Some("rust".to_string()), true);
    assert_eq!(status_str(val.status), "degraded");
    let rust = &val.languages[0];
    assert_eq!(rust.status, HealthStatus::Degraded);
    assert_eq!(rust.navigation_verified, Some(false));
    assert_eq!(rust.navigation_ready, Some(true));
    assert!(!rust.degraded_tools.is_empty());
    for tool in ["locate", "trace", "inspect"] {
        assert!(rust.degraded_tools.iter().any(|t| t.tool == tool && t.severity == "degraded"), "{tool}");
    }
}

#[test]
fn test_health_ready_status_has_navigation_verified_true() {
    let caps = vec![("rust".to_string(), status(Some(true), Some(true), Some(120)))];
    let mut report = HealthReport::new(&caps, &Some("rust".to_string()));
    report.mark_alive(0, true);
    let val = report.finish(&Vec::new(), &Some("rust".to_string()), true);
    assert_eq!(status_str(val.status), "ready");
    assert_eq!(val.languages[0].navigation_verified, Some(true));
    assert!(val.languages[0].degraded_tools.is_empty());
}

#[test]
fn test_stale_cache_does_not_infect_unavailable_language() {
    let caps = vec![("go".to_string(), status(None, None, None))];
    let mut report = HealthReport::new(&caps, &None);
    report.stamp_probe_age(0, Some(3));
    let val = report.finish(&Vec::new(), &None, true);
    let go = &val.languages[0];
    assert_eq!(go.status, HealthStatus::Unavailable);
    assert!(!go.probe_verified);
    assert_eq!(go.navigation_tested, None);
    assert_eq!(go.last_probe_age_secs, None);
}

#[test]
fn test_health_shows_nonzero_probe_age() {
    let caps = vec![("go".to_string(), status(Some(true), Some(true), Some(350)))];
    let mut report = HealthReport::new(&caps, &Some("go".to_string()));
    let cached = ProbeCacheState { success: true, call_hierarchy_verified: true, valid: true, age_secs: 5 };
    let action = liveness_probe_action(Some(cached), staleness_threshold(Some(350)), false);
    assert_eq!(action, ProbeAction::UseCachedReady { call_hierarchy_verified: true });
    report.mark_alive(0, true);
    report.stamp_probe_age(0, Some(cached.age_secs));
    let val = report.finish(&Vec::new(), &Some("go".to_string()), true);
    assert!(val.languages[0].last_probe_age_secs.unwrap() >= 4);
    assert!(val.languages[0].probe_verified);
}

#[test]
fn overall_status_follows_the_order_of_entries() {
    let caps = vec![
        ("go".to_string(), status(Some(true), Some(true), Some(30))),
        ("py".to_string(), status(None, None, Some(3))),
    ];
    let mut report = HealthReport::new(&caps, &None);
    report.mark_dead(0);
    let val = report.finish(&Vec::new(), &None, true);
    assert_eq!(val.status, HealthStatus::Degraded);
    let none = HealthReport::new(&Vec::new(), &None).finish(&Vec::new(), &None, true);
    assert_eq!(none.status, HealthStatus::Unavailable);
    assert!(none.languages.is_empty());
}

use pathfinder_nav::health::{EntryOutcome, EntryPlan, ProbePhase};

#[test]
fn liveness_cache_expires_at_the_threshold() {
    let at = ProbeCacheState { success: true, call_hierarchy_verified: true, valid: true, age_secs: 30 };
    let below = ProbeCacheState { age_secs: 29, ..at };
    assert_eq!(liveness_probe_action(Some(at), 30, false), ProbeAction::Probe);
    assert_eq!(
        liveness_probe_action(Some(below), 30, false),
        ProbeAction::UseCachedReady { call_hierarchy_verified: true }
    );
}

#[test]
fn warming_pass_plans_and_upgrades() {
    let caps = vec![
        ("go".to_string(), status(Some(false), Some(false), Some(30))),
        ("rust".to_string(), status(Some(true), Some(true), Some(30))),
        ("java".to_string(), status(None, Some(false), Some(5))),
    ];
    let mut report = HealthReport::new(&caps, &None);
    // A ready entry is not for the warming pass.
    assert_eq!(report.plan_entry(1, ProbePhase::Warming, ProbeAction::Probe, true), EntryPlan::Leave);
    // A warming-up entry that is not yet due is left alone.
    assert_eq!(report.plan_entry(2, ProbePhase::Warming, ProbeAction::Probe, true), EntryPlan::Leave);
    // A valid negative result skips the probe.
    assert_eq!(report.plan_entry(0, ProbePhase::Warming, ProbeAction::SkipProbe, true), EntryPlan::Leave);
    let plan = report.plan_entry(0, ProbePhase::Warming, ProbeAction::Probe, false);
    assert_eq!(plan, EntryPlan::Probe);
    // A failed probe leaves a warming-up entry as it was.
    assert_eq!(report.settle_entry(0, ProbePhase::Warming, plan, Some((false, false))), EntryOutcome::Unchanged);
    assert_eq!(report.languages[0].status, HealthStatus::WarmingUp);
    let out = report.settle_entry(0, ProbePhase::Warming, plan, Some((true, true)));
    assert_eq!(out, EntryOutcome::BecameReady { call_hierarchy_verified: true });
    assert_eq!(report.languages[0].status, HealthStatus::Ready);
    assert!(report.languages[0].probe_verified);
    assert_eq!(report.languages[0].navigation_verified, Some(true));
    // A cached positive result stands for a probe.
    let cached = report.plan_entry(
        2,
        ProbePhase::Warming,
        ProbeAction::UseCachedReady { call_hierarchy_verified: false },
        false,
    );
    assert_eq!(cached, EntryPlan::UseCached { call_hierarchy_verified: false });
    assert_eq!(
        report.settle_entry(2, ProbePhase::Warming, cached, None),
        EntryOutcome::BecameReady { call_hierarchy_verified: false }
    );
    assert_eq!(report.languages[2].status, HealthStatus::Ready);
    assert!(!report.languages[2].call_hierarchy_verified);
}

#[test]
fn liveness_pass_keeps_or_degrades_ready_entries() {
    let caps = vec![
        ("rust".to_string(), status(Some(true), Some(true), Some(30))),
        ("go".to_string(), status(Some(true), Some(true), Some(30))),
        ("java".to_string(), status(None, Some(false), Some(5))),
    ];
    let mut report = HealthReport::new(&caps, &None);
    // Without a probe file a ready entry is not probed.
    assert_eq!(report.plan_entry(0, ProbePhase::Liveness, ProbeAction::Probe, false), EntryPlan::Leave);
    // A warming-up entry is not for the liveness pass, whatever the verdict.
    let plan = report.plan_entry(2, ProbePhase::Liveness, ProbeAction::Probe, true);
    assert_eq!(plan, EntryPlan::Leave);
    assert_eq!(report.settle_entry(2, ProbePhase::Liveness, EntryPlan::Probe, Some((false, false))), EntryOutcome::Unchanged);
    assert_eq!(report.languages[2].status, HealthStatus::WarmingUp);
    let plan = report.plan_entry(0, ProbePhase::Liveness, ProbeAction::Probe, true);
    assert_eq!(plan, EntryPlan::Probe);
    assert_eq!(
        report.settle_entry(0, ProbePhase::Liveness, plan, Some((true, false))),
        EntryOutcome::StillAlive { call_hierarchy_verified: false }
    );
    assert_eq!(report.languages[0].status, HealthStatus::Ready);
    assert!(report.languages[0].probe_verified);
    assert_eq!(report.settle_entry(1, ProbePhase::Liveness, plan, Some((false, false))), EntryOutcome::Died);
    assert_eq!(report.languages[1].status, HealthStatus::Degraded);
    assert_eq!(report.languages[1].navigation_verified, Some(false));
    // Once degraded, the entry is no longer for the liveness pass.
    assert_eq!(report.settle_entry(1, ProbePhase::Liveness, plan, Some((true, true))), EntryOutcome::Unchanged);
    assert_eq!(report.languages[1].status, HealthStatus::Degraded);
    let resp = report.finish(&Vec::new(), &None, true);
    assert_eq!(resp.status, HealthStatus::Ready);
}
