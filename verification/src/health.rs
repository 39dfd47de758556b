//! LSP health report: per-language readiness, degraded tools, probe-cache
//! decisions, overall status and the plain-text summary.

use vstd::prelude::*;
use crate::text::{
    chars_of, decimal, push_decimal, contains_chars, contains_seq, join_seqs, join_strings, push_str, str_eq, string_of, views,
};
use crate::uptime::{format_uptime, uptime_text};

verus! {

/// Readiness of one language server, or of all of them together.
#[derive(PartialEq, Eq, Structural, Clone, Copy, Debug)]
pub enum HealthStatus {
    Ready,
    WarmingUp,
    Starting,
    Unavailable,
    Degraded,
}

/// What the language-server manager reports for one language.
pub struct LspLanguageStatus {
    pub navigation_ready: Option<bool>,
    pub indexing_complete: Option<bool>,
    pub uptime_seconds: Option<u64>,
    pub supports_definition: Option<bool>,
    pub supports_call_hierarchy: Option<bool>,
    pub supports_diagnostics: Option<bool>,
    pub diagnostics_strategy: Option<String>,
    pub server_name: Option<String>,
    pub registrations_received: Option<u32>,
    pub indexing_progress_percent: Option<u8>,
    pub indexing_source: Option<String>,
    pub indexing_duration_secs: Option<u64>,
}

/// A navigation tool that works in a reduced mode for a language.
pub struct DegradedToolInfo {
    pub tool: String,
    pub severity: String,
    pub description: String,
}

impl View for DegradedToolInfo {
    type V = (Seq<char>, Seq<char>, Seq<char>);

    open spec fn view(&self) -> (Seq<char>, Seq<char>, Seq<char>) {
        (self.tool@, self.severity@, self.description@)
    }
}

/// Status of one language from its readiness signals: navigation readiness
/// decides first, then unfinished indexing, then a running process.
pub open spec fn classify_status(
    navigation_ready: Option<bool>,
    indexing_complete: Option<bool>,
    uptime_seconds: Option<u64>,
) -> HealthStatus {
    if navigation_ready == Some(true) {
        HealthStatus::Ready
    } else if navigation_ready == Some(false) || indexing_complete == Some(false) {
        HealthStatus::WarmingUp
    } else if uptime_seconds is Some {
        HealthStatus::Starting
    } else {
        HealthStatus::Unavailable
    }
}

/// Rank of the statuses that the first pass can give; a higher one wins.
pub open spec fn status_rank(s: HealthStatus) -> int {
    match s {
        HealthStatus::Ready => 3,
        HealthStatus::WarmingUp => 2,
        HealthStatus::Starting => 1,
        _ => 0,
    }
}

/// The overall status after a language with status `s` has been seen.
pub open spec fn spec_merge_overall(overall: HealthStatus, s: HealthStatus) -> HealthStatus {
    match s {
        HealthStatus::Ready => HealthStatus::Ready,
        HealthStatus::WarmingUp => if overall != HealthStatus::Ready {
            HealthStatus::WarmingUp
        } else {
            overall
        },
        HealthStatus::Starting => if overall != HealthStatus::Ready && overall
            != HealthStatus::WarmingUp {
            HealthStatus::Starting
        } else {
            overall
        },
        _ => overall,
    }
}

/// Classifies one language: its status and, unless it is unavailable, its
/// uptime as text.
pub fn classify_language(status: &LspLanguageStatus) -> (r: (HealthStatus, Option<String>))
    ensures
        r.0 == classify_status(
            status.navigation_ready,
            status.indexing_complete,
            status.uptime_seconds,
        ),
        r.0 == HealthStatus::Unavailable ==> r.1 is None,
        r.0 != HealthStatus::Unavailable ==> match status.uptime_seconds {
            Some(u) => r.1 matches Some(t) && t@ == uptime_text(u as nat),
            None => r.1 is None,
        },
{
    let s = if status.navigation_ready == Some(true) {
        HealthStatus::Ready
    } else if status.navigation_ready == Some(false) || status.indexing_complete == Some(false) {
        HealthStatus::WarmingUp
    } else if status.uptime_seconds.is_some() {
        HealthStatus::Starting
    } else {
        HealthStatus::Unavailable
    };
    let uptime = if s == HealthStatus::Unavailable {
        None
    } else {
        match status.uptime_seconds {
            Some(u) => Some(format_uptime(u)),
            None => None,
        }
    };
    (s, uptime)
}

/// The overall status after a language with status `s` has been seen:
/// ready beats warming up, which beats starting.
pub fn merge_overall(overall: HealthStatus, s: HealthStatus) -> (r: HealthStatus)
    ensures
        r == spec_merge_overall(overall, s),
{
    match s {
        HealthStatus::Ready => HealthStatus::Ready,
        HealthStatus::WarmingUp => if overall != HealthStatus::Ready {
            HealthStatus::WarmingUp
        } else {
            overall
        },
        HealthStatus::Starting => if overall != HealthStatus::Ready && overall
            != HealthStatus::WarmingUp {
            HealthStatus::Starting
        } else {
            overall
        },
        _ => overall,
    }
}

/// Merging keeps the higher-ranked of the two statuses, for the statuses that
/// the first pass of the report gives.
pub proof fn law_merge_keeps_best(overall: HealthStatus, s: HealthStatus)
    requires
        overall != HealthStatus::Degraded,
        s != HealthStatus::Degraded,
    ensures
        spec_merge_overall(overall, s) == (if status_rank(s) > status_rank(overall) {
            s
        } else {
            overall
        }),
{
}

/// Whether indexing is reported as complete or still in progress.
#[derive(PartialEq, Eq, Structural, Clone, Copy, Debug)]
pub enum IndexingStatus {
    Complete,
    InProgress,
}

/// Indexing status from the manager's indexing signal.
pub fn indexing_status(indexing_complete: Option<bool>) -> (r: Option<IndexingStatus>)
    ensures
        r == (match indexing_complete {
            Some(true) => Some(IndexingStatus::Complete),
            Some(false) => Some(IndexingStatus::InProgress),
            None => None,
        }),
{
    match indexing_complete {
        Some(true) => Some(IndexingStatus::Complete),
        Some(false) => Some(IndexingStatus::InProgress),
        None => None,
    }
}

/// `str::to_lowercase` of a server name.
pub uninterp spec fn lowercase_of(s: Seq<char>) -> Seq<char>;

/// Calls `str::to_lowercase`; its result is taken to depend on `s` alone.
#[verifier::external_body]
fn to_lowercase(s: &str) -> (r: String)
    ensures
        r@ == lowercase_of(s@),
{
    s.to_lowercase()
}

/// A lower-cased server name that names a TypeScript/JavaScript server.
pub open spec fn names_ts_js(lower: Seq<char>) -> bool {
    contains_seq(lower, "typescript"@) || contains_seq(lower, "tsserver"@) || contains_seq(
        lower,
        "vtsls"@,
    ) || contains_seq(lower, "typescript-language-server"@)
}

/// Whether an already lower-cased server name names a TypeScript/JavaScript
/// server.
pub fn names_ts_js_server(lower: &str) -> (r: bool)
    ensures
        r == names_ts_js(lower@),
{
    let v = chars_of(lower);
    contains_chars(&v, &chars_of("typescript")) || contains_chars(&v, &chars_of("tsserver"))
        || contains_chars(&v, &chars_of("vtsls")) || contains_chars(
        &v,
        &chars_of("typescript-language-server"),
    )
}

/// Whether the server name, lower-cased, names a TypeScript/JavaScript server.
pub fn is_ts_js_server(server_name: Option<&String>) -> (r: bool)
    ensures
        r == (match server_name {
            Some(n) => names_ts_js(lowercase_of(n@)),
            None => false,
        }),
{
    match server_name {
        None => false,
        Some(n) => names_ts_js_server(to_lowercase(n.as_str()).as_str()),
    }
}

pub open spec fn tool_note(tool: &str, severity: &str, description: &str) -> (
    Seq<char>,
    Seq<char>,
    Seq<char>,
) {
    (tool@, severity@, description@)
}

/// The tools in reduced mode for a language: `locate`, `trace` and `inspect`
/// once a probe found the server unresponsive; all four while navigation is
/// neither ready nor verified; else `locate` without definition support and
/// `trace`/`inspect` without call-hierarchy support.
pub open spec fn spec_degraded_tools(
    navigation_verified: Option<bool>,
    navigation_ready: Option<bool>,
    supports_definition: Option<bool>,
    supports_call_hierarchy: Option<bool>,
    ts_js: bool,
) -> Seq<(Seq<char>, Seq<char>, Seq<char>)> {
    if navigation_verified == Some(false) {
        seq![
            tool_note("locate", "degraded", "LSP did not answer its probe. Uses grep heuristic until the server responds again."),
            tool_note("trace", "degraded", "LSP did not answer its probe. Uses grep fallback until the server responds again."),
            tool_note("inspect", "degraded", "LSP did not answer its probe. Returns source only (no dep signatures) until the server responds again."),
        ]
    } else if navigation_ready != Some(true) && navigation_verified != Some(true) {
        seq![
            tool_note("locate", "warming_up", "LSP still initializing. Uses grep heuristic until navigation_ready=true."),
            tool_note("trace", "warming_up", "LSP still initializing. Uses grep fallback until navigation_ready=true."),
            tool_note("inspect", "warming_up", "LSP still initializing. Returns source only (no dep signatures) until ready."),
            tool_note("trace(scope=\"references\")", "warming_up", "LSP still initializing. Reference results may be incomplete until ready."),
        ]
    } else {
        let locate = if supports_definition != Some(true) {
            seq![
                tool_note("locate", "grep_fallback", "Uses ripgrep heuristic instead of LSP. May find wrong definition or miss re-exports."),
            ]
        } else {
            Seq::empty()
        };
        let hierarchy = if supports_call_hierarchy != Some(true) {
            if ts_js {
                seq![
                    tool_note("trace(scope=\"callers\")", "grep_fallback", "Call hierarchy not negotiated by the TypeScript/JavaScript language server (requires TypeScript 3.8.0+). trace uses grep fallback (less accurate)."),
                    tool_note("inspect(include_dependencies=true)", "unavailable", "Call hierarchy not negotiated by the TypeScript/JavaScript language server (requires TypeScript 3.8.0+). inspect returns source only, no dependency signatures."),
                ]
            } else {
                seq![
                    tool_note("trace(scope=\"callers\")", "grep_fallback", "Uses text search instead of call hierarchy. May over/under-count references."),
                    tool_note("inspect(include_dependencies=true)", "unavailable", "Returns source only, no dependency signatures. Use search as alternative."),
                ]
            }
        } else {
            Seq::empty()
        };
        locate + hierarchy
    }
}

fn note(tool: &str, severity: &str, description: &str) -> (r: DegradedToolInfo)
    ensures
        r@ == tool_note(tool, severity, description),
{
    DegradedToolInfo {
        tool: string_of(tool),
        severity: string_of(severity),
        description: string_of(description),
    }
}

/// The tools in reduced mode for a language, given whether its server is a
/// TypeScript/JavaScript one.
pub fn degraded_tools_for(
    navigation_verified: Option<bool>,
    navigation_ready: Option<bool>,
    supports_definition: Option<bool>,
    supports_call_hierarchy: Option<bool>,
    ts_js: bool,
) -> (r: Vec<DegradedToolInfo>)
    ensures
        r@.map_values(|t: DegradedToolInfo| t@) == spec_degraded_tools(
            navigation_verified,
            navigation_ready,
            supports_definition,
            supports_call_hierarchy,
            ts_js,
        ),
{
    let mut degraded: Vec<DegradedToolInfo> = Vec::new();
    if navigation_verified == Some(false) {
        degraded.push(note("locate", "degraded", "LSP did not answer its probe. Uses grep heuristic until the server responds again."));
        degraded.push(note("trace", "degraded", "LSP did not answer its probe. Uses grep fallback until the server responds again."));
        degraded.push(note("inspect", "degraded", "LSP did not answer its probe. Returns source only (no dep signatures) until the server responds again."));
        assert(degraded@.map_values(|t: DegradedToolInfo| t@) =~= spec_degraded_tools(
            navigation_verified,
            navigation_ready,
            supports_definition,
            supports_call_hierarchy,
            ts_js,
        ));
        return degraded;
    }
    if navigation_ready != Some(true) && navigation_verified != Some(true) {
        degraded.push(note("locate", "warming_up", "LSP still initializing. Uses grep heuristic until navigation_ready=true."));
        degraded.push(note("trace", "warming_up", "LSP still initializing. Uses grep fallback until navigation_ready=true."));
        degraded.push(note("inspect", "warming_up", "LSP still initializing. Returns source only (no dep signatures) until ready."));
        degraded.push(note("trace(scope=\"references\")", "warming_up", "LSP still initializing. Reference results may be incomplete until ready."));
        assert(degraded@.map_values(|t: DegradedToolInfo| t@) =~= spec_degraded_tools(
            navigation_verified,
            navigation_ready,
            supports_definition,
            supports_call_hierarchy,
            ts_js,
        ));
        return degraded;
    }
    if supports_definition != Some(true) {
        degraded.push(note("locate", "grep_fallback", "Uses ripgrep heuristic instead of LSP. May find wrong definition or miss re-exports."));
    }
    if supports_call_hierarchy != Some(true) {
        if ts_js {
            degraded.push(note("trace(scope=\"callers\")", "grep_fallback", "Call hierarchy not negotiated by the TypeScript/JavaScript language server (requires TypeScript 3.8.0+). trace uses grep fallback (less accurate)."));
            degraded.push(note("inspect(include_dependencies=true)", "unavailable", "Call hierarchy not negotiated by the TypeScript/JavaScript language server (requires TypeScript 3.8.0+). inspect returns source only, no dependency signatures."));
        } else {
            degraded.push(note("trace(scope=\"callers\")", "grep_fallback", "Uses text search instead of call hierarchy. May over/under-count references."));
            degraded.push(note("inspect(include_dependencies=true)", "unavailable", "Returns source only, no dependency signatures. Use search as alternative."));
        }
    }
    assert(degraded@.map_values(|t: DegradedToolInfo| t@) =~= spec_degraded_tools(
        navigation_verified,
        navigation_ready,
        supports_definition,
        supports_call_hierarchy,
        ts_js,
    ));
    degraded
}

/// The tools in reduced mode for a language, from the signals of its health
/// entry.
pub fn compute_degraded_tools_from_health(
    navigation_verified: Option<bool>,
    navigation_ready: Option<bool>,
    supports_definition: Option<bool>,
    supports_call_hierarchy: Option<bool>,
    server_name: Option<&String>,
) -> (r: Vec<DegradedToolInfo>)
    ensures
        r@.map_values(|t: DegradedToolInfo| t@) == spec_degraded_tools(
            navigation_verified,
            navigation_ready,
            supports_definition,
            supports_call_hierarchy,
            match server_name {
                Some(n) => names_ts_js(lowercase_of(n@)),
                None => false,
            },
        ),
{
    let ts_js = is_ts_js_server(server_name);
    degraded_tools_for(
        navigation_verified,
        navigation_ready,
        supports_definition,
        supports_call_hierarchy,
        ts_js,
    )
}

/// The tools in reduced mode for a language, from the manager's status.
pub fn compute_degraded_tools(status: &LspLanguageStatus) -> (r: Vec<DegradedToolInfo>)
    ensures
        r@.map_values(|t: DegradedToolInfo| t@) == spec_degraded_tools(
            None,
            status.navigation_ready,
            status.supports_definition,
            status.supports_call_hierarchy,
            match status.server_name {
                Some(n) => names_ts_js(lowercase_of(n@)),
                None => false,
            },
        ),
{
    compute_degraded_tools_from_health(
        None,
        status.navigation_ready,
        status.supports_definition,
        status.supports_call_hierarchy,
        status.server_name.as_ref(),
    )
}

/// Health of one language as the report gives it.
pub struct LspLanguageHealth {
    pub language: String,
    pub status: HealthStatus,
    pub uptime: Option<String>,
    pub diagnostics_strategy: Option<String>,
    pub supports_call_hierarchy: Option<bool>,
    pub supports_diagnostics: Option<bool>,
    pub supports_definition: Option<bool>,
    pub indexing_status: Option<IndexingStatus>,
    pub navigation_ready: Option<bool>,
    pub probe_verified: bool,
    pub navigation_tested: Option<bool>,
    /// Whether a probe found navigation working (`Some(false)`: it did not).
    pub navigation_verified: Option<bool>,
    pub call_hierarchy_verified: bool,
    pub install_hint: Option<String>,
    pub server_name: Option<String>,
    pub registrations_received: Option<u32>,
    pub indexing_progress_percent: Option<u8>,
    pub degraded_tools: Vec<DegradedToolInfo>,
    pub indexing_source: Option<String>,
    pub indexing_duration_secs: Option<u64>,
    /// Seconds since the probe result in the cache was taken.
    pub last_probe_age_secs: Option<u64>,
}

pub open spec fn spec_indexing_status(indexing_complete: Option<bool>) -> Option<IndexingStatus> {
    match indexing_complete {
        Some(true) => Some(IndexingStatus::Complete),
        Some(false) => Some(IndexingStatus::InProgress),
        None => None,
    }
}

pub open spec fn ts_js_name(server_name: Option<String>) -> bool {
    match server_name {
        Some(n) => names_ts_js(lowercase_of(n@)),
        None => false,
    }
}

/// A language is reported when no filter is given or it is the filtered one.
pub open spec fn matches_filter(lang: Seq<char>, filter: Option<String>) -> bool {
    match filter {
        Some(f) => f@ == lang,
        None => true,
    }
}

/// The entry that the first pass makes for language `lang` with status `st`.
pub open spec fn entry_fits(e: LspLanguageHealth, lang: String, st: LspLanguageStatus) -> bool {
    &&& e.language@ == lang@
    &&& e.status == classify_status(st.navigation_ready, st.indexing_complete, st.uptime_seconds)
    &&& (if e.status == HealthStatus::Unavailable {
        e.uptime is None
    } else {
        match st.uptime_seconds {
            Some(u) => e.uptime matches Some(t) && t@ == uptime_text(u as nat),
            None => e.uptime is None,
        }
    })
    &&& e.diagnostics_strategy == st.diagnostics_strategy
    &&& e.supports_call_hierarchy == st.supports_call_hierarchy
    &&& e.supports_diagnostics == st.supports_diagnostics
    &&& e.supports_definition == st.supports_definition
    &&& e.indexing_status == spec_indexing_status(st.indexing_complete)
    &&& e.navigation_ready == st.navigation_ready
    &&& !e.probe_verified
    &&& e.navigation_tested is None
    &&& e.navigation_verified is None
    &&& !e.call_hierarchy_verified
    &&& e.install_hint is None
    &&& e.server_name == st.server_name
    &&& e.registrations_received == st.registrations_received
    &&& e.indexing_progress_percent == st.indexing_progress_percent
    &&& e.degraded_tools@.map_values(|t: DegradedToolInfo| t@) == spec_degraded_tools(
        None,
        st.navigation_ready,
        st.supports_definition,
        st.supports_call_hierarchy,
        ts_js_name(st.server_name),
    )
    &&& e.indexing_source == st.indexing_source
    &&& e.indexing_duration_secs == st.indexing_duration_secs
    &&& e.last_probe_age_secs is None
}

/// The reported languages, in the manager's order, that match the filter.
pub open spec fn kept_languages(caps: Seq<(String, LspLanguageStatus)>, filter: Option<String>) -> Seq<
    (String, LspLanguageStatus),
>
    decreases caps.len(),
{
    if caps.len() == 0 {
        Seq::empty()
    } else {
        let rest = kept_languages(caps.drop_last(), filter);
        if matches_filter(caps.last().0@, filter) {
            rest.push(caps.last())
        } else {
            rest
        }
    }
}

/// The overall status after the first pass over `langs`.
pub open spec fn first_pass_overall(langs: Seq<(String, LspLanguageStatus)>) -> HealthStatus
    decreases langs.len(),
{
    if langs.len() == 0 {
        HealthStatus::Unavailable
    } else {
        let st = langs.last().1;
        spec_merge_overall(
            first_pass_overall(langs.drop_last()),
            classify_status(st.navigation_ready, st.indexing_complete, st.uptime_seconds),
        )
    }
}

pub open spec fn status_of(st: LspLanguageStatus) -> HealthStatus {
    classify_status(st.navigation_ready, st.indexing_complete, st.uptime_seconds)
}

/// After the first pass the overall status is the best of the languages'
/// statuses (ready, then warming up, then starting), and unavailable when
/// no language is reported.
pub proof fn law_first_pass_overall_is_best(langs: Seq<(String, LspLanguageStatus)>)
    ensures
        forall|i: int|
            0 <= i < langs.len() ==> status_rank(status_of(#[trigger] langs[i].1)) <= status_rank(
                first_pass_overall(langs),
            ),
        first_pass_overall(langs) == HealthStatus::Unavailable || exists|i: int|
            0 <= i < langs.len() && status_of(#[trigger] langs[i].1) == first_pass_overall(langs),
        first_pass_overall(langs) != HealthStatus::Degraded,
    decreases langs.len(),
{
    if langs.len() > 0 {
        let rest = langs.drop_last();
        law_first_pass_overall_is_best(rest);
        let o = first_pass_overall(rest);
        let s = status_of(langs.last().1);
        law_merge_keeps_best(o, s);
        assert forall|i: int|
            0 <= i < langs.len() implies status_rank(status_of(#[trigger] langs[i].1)) <= status_rank(
                first_pass_overall(langs),
            ) by {
            if i < langs.len() - 1 {
                assert(langs[i] == rest[i]);
            }
        }
        if first_pass_overall(langs) != HealthStatus::Unavailable {
            if first_pass_overall(langs) == s {
                assert(status_of(langs[langs.len() - 1].1) == first_pass_overall(langs));
            } else {
                let j = choose|j: int|
                    0 <= j < rest.len() && status_of(#[trigger] rest[j].1) == first_pass_overall(
                        rest,
                    );
                assert(langs[j] == rest[j]);
            }
        }
    }
}

proof fn lemma_first_pass_tracks(kept: Seq<(String, LspLanguageStatus)>, langs: Seq<LspLanguageHealth>)
    requires
        langs.len() == kept.len(),
        forall|j: int| 0 <= j < langs.len() ==> (#[trigger] langs[j]).status == status_of(kept[j].1),
        forall|j: int|
            0 <= j < kept.len() ==> status_rank(status_of(#[trigger] kept[j].1)) <= status_rank(
                first_pass_overall(kept),
            ),
        first_pass_overall(kept) == HealthStatus::Unavailable || exists|j: int|
            0 <= j < kept.len() && status_of(#[trigger] kept[j].1) == first_pass_overall(kept),
        first_pass_overall(kept) != HealthStatus::Degraded,
    ensures
        first_pass_overall(kept) == building_status(langs),
{
    let o = first_pass_overall(kept);
    assert(!has_status(langs, HealthStatus::Degraded)) by {
        if has_status(langs, HealthStatus::Degraded) {
            let j = choose|j: int| 0 <= j < langs.len() && (#[trigger] langs[j]).status
                == HealthStatus::Degraded;
            assert(status_of(kept[j].1) == HealthStatus::Degraded);
        }
    }
    if o != HealthStatus::Unavailable {
        let w = choose|j: int| 0 <= j < kept.len() && status_of(#[trigger] kept[j].1) == o;
        assert(langs[w].status == o);
    }
    assert forall|j: int| 0 <= j < langs.len() implies status_rank((#[trigger] langs[j]).status)
        <= status_rank(o) by {
        assert(status_rank(status_of(kept[j].1)) <= status_rank(o));
    }
    if has_status(langs, HealthStatus::Ready) {
        let j = choose|j: int| 0 <= j < langs.len() && (#[trigger] langs[j]).status
            == HealthStatus::Ready;
        assert(status_rank(langs[j].status) <= status_rank(o));
    } else if has_status(langs, HealthStatus::WarmingUp) {
        let j = choose|j: int| 0 <= j < langs.len() && (#[trigger] langs[j]).status
            == HealthStatus::WarmingUp;
        assert(status_rank(langs[j].status) <= status_rank(o));
    } else if has_status(langs, HealthStatus::Starting) {
        let j = choose|j: int| 0 <= j < langs.len() && (#[trigger] langs[j]).status
            == HealthStatus::Starting;
        assert(status_rank(langs[j].status) <= status_rank(o));
    }
}

fn clone_opt_string(o: &Option<String>) -> (r: Option<String>)
    ensures
        r == *o,
{
    match o {
        Some(s) => Some(s.clone()),
        None => None,
    }
}

/// The entry of the first pass for one language.
pub fn language_entry(lang: &String, status: &LspLanguageStatus) -> (e: LspLanguageHealth)
    ensures
        entry_fits(e, *lang, *status),
{
    let (s, uptime) = classify_language(status);
    LspLanguageHealth {
        language: lang.clone(),
        status: s,
        uptime,
        diagnostics_strategy: clone_opt_string(&status.diagnostics_strategy),
        supports_call_hierarchy: status.supports_call_hierarchy,
        supports_diagnostics: status.supports_diagnostics,
        supports_definition: status.supports_definition,
        indexing_status: indexing_status(status.indexing_complete),
        navigation_ready: status.navigation_ready,
        probe_verified: false,
        navigation_tested: None,
        navigation_verified: None,
        call_hierarchy_verified: false,
        install_hint: None,
        server_name: clone_opt_string(&status.server_name),
        registrations_received: status.registrations_received,
        indexing_progress_percent: status.indexing_progress_percent,
        degraded_tools: compute_degraded_tools(status),
        indexing_source: clone_opt_string(&status.indexing_source),
        indexing_duration_secs: status.indexing_duration_secs,
        last_probe_age_secs: None,
    }
}

/// The health report while it is being built: the language entries and the
/// overall status so far.
pub struct HealthReport {
    pub languages: Vec<LspLanguageHealth>,
    pub overall: HealthStatus,
}

/// What the probe cache holds for a language, read at the time of the check:
/// the probe's outcome and whether the entry has not yet expired.
#[derive(Clone, Copy)]
pub struct ProbeCacheState {
    pub success: bool,
    pub call_hierarchy_verified: bool,
    pub valid: bool,
    pub age_secs: u64,
}

/// What to do for a language after looking into the probe cache.
#[derive(PartialEq, Eq, Structural, Clone, Copy, Debug)]
pub enum ProbeAction {
    /// A cached positive result stands: the language counts as ready.
    UseCachedReady { call_hierarchy_verified: bool },
    /// A cached negative result has not expired: do not probe.
    SkipProbe,
    /// No usable entry: probe the server.
    Probe,
}

/// Interval between probes of a server that has run for more than five
/// minutes.
pub const LIVENESS_PROBE_INTERVAL_SECS: u64 = 120;

/// The interval between probes of a server, by how long it has run: 10 s in
/// its first minute, 30 s until five minutes, then `LIVENESS_PROBE_INTERVAL_SECS`
/// (also when its uptime is unknown).
pub open spec fn spec_probe_interval(uptime_secs: Option<u64>) -> u64 {
    match uptime_secs {
        Some(u) => if u <= 60 {
            10
        } else if u <= 300 {
            30
        } else {
            LIVENESS_PROBE_INTERVAL_SECS
        },
        None => LIVENESS_PROBE_INTERVAL_SECS,
    }
}

/// The interval between probes of a server that has run `uptime_secs`.
pub fn probe_interval(uptime_secs: Option<u64>) -> (r: u64)
    ensures
        r == spec_probe_interval(uptime_secs),
{
    match uptime_secs {
        Some(u) => if u <= 60 {
            10
        } else if u <= 300 {
            30
        } else {
            LIVENESS_PROBE_INTERVAL_SECS
        },
        None => LIVENESS_PROBE_INTERVAL_SECS,
    }
}

/// The age from which a cached positive probe result counts as stale: the
/// probe interval, but never more than 30 s.
pub open spec fn spec_staleness_threshold(uptime_secs: Option<u64>) -> u64 {
    let i = spec_probe_interval(uptime_secs);
    if i < 30 {
        i
    } else {
        30
    }
}

/// The staleness threshold for a server that has run `uptime_secs`.
pub fn staleness_threshold(uptime_secs: Option<u64>) -> (r: u64)
    ensures
        r == spec_staleness_threshold(uptime_secs),
{
    let i = probe_interval(uptime_secs);
    if i < 30 {
        i
    } else {
        30
    }
}

/// Probe-cache decision for a language that is warming up: a forced probe
/// always probes; otherwise a valid positive entry is used, a valid negative
/// one skips the probe, anything else probes.
pub open spec fn spec_warming_probe_action(cached: Option<ProbeCacheState>, force: bool) -> ProbeAction {
    if force {
        ProbeAction::Probe
    } else {
        match cached {
            Some(e) => if e.valid && e.success {
                ProbeAction::UseCachedReady { call_hierarchy_verified: e.call_hierarchy_verified }
            } else if e.valid {
                ProbeAction::SkipProbe
            } else {
                ProbeAction::Probe
            },
            None => ProbeAction::Probe,
        }
    }
}

/// Probe-cache decision for a language that is warming up.
pub fn warming_probe_action(cached: Option<ProbeCacheState>, force: bool) -> (r: ProbeAction)
    ensures
        r == spec_warming_probe_action(cached, force),
{
    if force {
        return ProbeAction::Probe;
    }
    match cached {
        Some(e) => if e.valid && e.success {
            ProbeAction::UseCachedReady { call_hierarchy_verified: e.call_hierarchy_verified }
        } else if e.valid {
            ProbeAction::SkipProbe
        } else {
            ProbeAction::Probe
        },
        None => ProbeAction::Probe,
    }
}

/// Probe-cache decision for a language that is ready: a forced probe always
/// probes; otherwise a valid positive entry younger than `threshold` is
/// used, an older one is probed again, a valid negative one skips the probe,
/// anything else probes.
pub open spec fn spec_liveness_probe_action(
    cached: Option<ProbeCacheState>,
    threshold: u64,
    force: bool,
) -> ProbeAction {
    if force {
        ProbeAction::Probe
    } else {
        match cached {
            Some(e) => if e.valid && e.success {
                if e.age_secs < threshold {
                    ProbeAction::UseCachedReady {
                        call_hierarchy_verified: e.call_hierarchy_verified,
                    }
                } else {
                    ProbeAction::Probe
                }
            } else if e.valid {
                ProbeAction::SkipProbe
            } else {
                ProbeAction::Probe
            },
            None => ProbeAction::Probe,
        }
    }
}

/// Probe-cache decision for a language that is ready, with the staleness
/// `threshold` for its uptime.
pub fn liveness_probe_action(cached: Option<ProbeCacheState>, threshold: u64, force: bool) -> (r:
    ProbeAction)
    ensures
        r == spec_liveness_probe_action(cached, threshold, force),
{
    if force {
        return ProbeAction::Probe;
    }
    match cached {
        Some(e) => if e.valid && e.success {
            if e.age_secs < threshold {
                ProbeAction::UseCachedReady { call_hierarchy_verified: e.call_hierarchy_verified }
            } else {
                ProbeAction::Probe
            }
        } else if e.valid {
            ProbeAction::SkipProbe
        } else {
            ProbeAction::Probe
        },
        None => ProbeAction::Probe,
    }
}

/// A probe result as the cache holds it while it is valid.
pub open spec fn stored_probe(success: bool, call_hierarchy_verified: bool, age_secs: u64) -> ProbeCacheState {
    ProbeCacheState { success, call_hierarchy_verified, valid: true, age_secs }
}

/// A successful live probe, stored with age 0, is reused by the next
/// unforced health request while it is younger than the staleness
/// threshold: no new probe is made, and the language counts as verified with
/// the stored call-hierarchy outcome. A failed probe, while valid, makes the
/// next request skip probing.
pub proof fn law_probe_cache_reuse(
    call_hierarchy_verified: bool,
    age_secs: u64,
    uptime_secs: Option<u64>,
)
    ensures
        age_secs < spec_staleness_threshold(uptime_secs) ==> spec_liveness_probe_action(
            Some(stored_probe(true, call_hierarchy_verified, age_secs)),
            spec_staleness_threshold(uptime_secs),
            false,
        ) == (ProbeAction::UseCachedReady { call_hierarchy_verified }),
        spec_liveness_probe_action(
            Some(stored_probe(false, false, age_secs)),
            spec_staleness_threshold(uptime_secs),
            false,
        ) == ProbeAction::SkipProbe,
        spec_warming_probe_action(Some(stored_probe(true, call_hierarchy_verified, age_secs)), false)
            == (ProbeAction::UseCachedReady { call_hierarchy_verified }),
        spec_staleness_threshold(uptime_secs) <= 30,
{
}

/// The two passes of a health check: warming-up languages are probed for
/// readiness, then ready languages for liveness.
#[derive(PartialEq, Eq, Structural, Clone, Copy, Debug)]
pub enum ProbePhase {
    Warming,
    Liveness,
}

/// What a pass does with one entry.
#[derive(PartialEq, Eq, Structural, Clone, Copy, Debug)]
pub enum EntryPlan {
    /// Nothing: the entry is not for this pass, or is not probed now.
    Leave,
    /// A cached positive result stands for a probe.
    UseCached { call_hierarchy_verified: bool },
    /// Probe the server now.
    Probe,
}

/// The plan for an entry with status `status`: the warming pass takes only
/// warming-up entries and probes them only once due; the liveness pass takes
/// only ready entries and probes them only when a probe file exists; a
/// cached positive result stands for a probe, a valid negative one leaves
/// the entry.
pub open spec fn spec_entry_plan(
    phase: ProbePhase,
    status: HealthStatus,
    action: ProbeAction,
    due: bool,
    has_probe_file: bool,
) -> EntryPlan {
    let wanted = match phase {
        ProbePhase::Warming => HealthStatus::WarmingUp,
        ProbePhase::Liveness => HealthStatus::Ready,
    };
    if status != wanted {
        EntryPlan::Leave
    } else {
        match action {
            ProbeAction::UseCachedReady { call_hierarchy_verified } => EntryPlan::UseCached {
                call_hierarchy_verified,
            },
            ProbeAction::SkipProbe => EntryPlan::Leave,
            ProbeAction::Probe => if (phase == ProbePhase::Warming && due) || (phase
                == ProbePhase::Liveness && has_probe_file) {
                EntryPlan::Probe
            } else {
                EntryPlan::Leave
            },
        }
    }
}

/// How one entry comes out of a pass.
#[derive(PartialEq, Eq, Structural, Clone, Copy, Debug)]
pub enum EntryOutcome {
    Unchanged,
    /// A warming-up entry proved ready.
    BecameReady { call_hierarchy_verified: bool },
    /// A ready entry is still alive.
    StillAlive { call_hierarchy_verified: bool },
    /// A ready entry did not answer.
    Died,
}

/// The outcome of plan `plan` for an entry with status `status`, given the
/// probe's verdict `(navigable, call_hierarchy_verified)` when one was made.
pub open spec fn spec_entry_outcome(
    phase: ProbePhase,
    status: HealthStatus,
    plan: EntryPlan,
    verdict: Option<(bool, bool)>,
) -> EntryOutcome {
    let wanted = match phase {
        ProbePhase::Warming => HealthStatus::WarmingUp,
        ProbePhase::Liveness => HealthStatus::Ready,
    };
    if status != wanted {
        EntryOutcome::Unchanged
    } else {
        match plan {
            EntryPlan::Leave => EntryOutcome::Unchanged,
            EntryPlan::UseCached { call_hierarchy_verified } => if phase == ProbePhase::Warming {
                EntryOutcome::BecameReady { call_hierarchy_verified }
            } else {
                EntryOutcome::StillAlive { call_hierarchy_verified }
            },
            EntryPlan::Probe => match verdict {
                Some((true, c)) => if phase == ProbePhase::Warming {
                    EntryOutcome::BecameReady { call_hierarchy_verified: c }
                } else {
                    EntryOutcome::StillAlive { call_hierarchy_verified: c }
                },
                Some((false, _)) => if phase == ProbePhase::Warming {
                    EntryOutcome::Unchanged
                } else {
                    EntryOutcome::Died
                },
                None => EntryOutcome::Unchanged,
            },
        }
    }
}

/// Probes move a status one way only: a pass upgrades only warming-up
/// entries, to ready, in the warming pass, and downgrades only ready
/// entries, to degraded, in the liveness pass; a plan to leave an entry, or
/// a pass it is not for, leaves it unchanged.
pub proof fn law_probes_move_status_one_way(
    phase: ProbePhase,
    status: HealthStatus,
    action: ProbeAction,
    due: bool,
    has_probe_file: bool,
    verdict: Option<(bool, bool)>,
)
    ensures
        ({
            let plan = spec_entry_plan(phase, status, action, due, has_probe_file);
            let out = spec_entry_outcome(phase, status, plan, verdict);
            &&& out is BecameReady ==> phase == ProbePhase::Warming && status
                == HealthStatus::WarmingUp
            &&& out is StillAlive ==> phase == ProbePhase::Liveness && status == HealthStatus::Ready
            &&& out is Died ==> phase == ProbePhase::Liveness && status == HealthStatus::Ready
                && (verdict == Some((false, false)) || verdict == Some((false, true)))
                && plan == EntryPlan::Probe
            &&& plan == EntryPlan::Leave ==> out == EntryOutcome::Unchanged
            &&& action == ProbeAction::SkipProbe ==> out == EntryOutcome::Unchanged
        }),
{
}

/// A language whose project markers were found but whose server is missing.
pub struct MissingLanguage {
    pub language_id: String,
    pub install_hint: String,
}

/// The finished health report.
pub struct LspHealthResponse {
    pub status: HealthStatus,
    pub languages: Vec<LspLanguageHealth>,
    pub warm_start_complete: bool,
    pub indexing_complete: bool,
    pub known_limitations: Vec<String>,
}

/// Entry `e` differs from `o` only in its status, the probe outcome fields and
/// the degraded tools that follow from them.
pub open spec fn same_but_probe(e: LspLanguageHealth, o: LspLanguageHealth) -> bool {
    &&& e.language == o.language
    &&& e.uptime == o.uptime
    &&& e.diagnostics_strategy == o.diagnostics_strategy
    &&& e.supports_call_hierarchy == o.supports_call_hierarchy
    &&& e.supports_diagnostics == o.supports_diagnostics
    &&& e.supports_definition == o.supports_definition
    &&& e.indexing_status == o.indexing_status
    &&& e.navigation_ready == o.navigation_ready
    &&& e.install_hint == o.install_hint
    &&& e.server_name == o.server_name
    &&& e.registrations_received == o.registrations_received
    &&& e.indexing_progress_percent == o.indexing_progress_percent
    &&& e.indexing_source == o.indexing_source
    &&& e.indexing_duration_secs == o.indexing_duration_secs
}

/// Some language in `langs` is ready.
pub open spec fn has_ready(langs: Seq<LspLanguageHealth>) -> bool {
    exists|i: int| 0 <= i < langs.len() && (#[trigger] langs[i]).status == HealthStatus::Ready
}

/// The entry's degraded tools are those its signals call for.
pub open spec fn tools_fit(e: LspLanguageHealth) -> bool {
    e.degraded_tools@.map_values(|t: DegradedToolInfo| t@) == spec_degraded_tools(
        e.navigation_verified,
        e.navigation_ready,
        e.supports_definition,
        e.supports_call_hierarchy,
        ts_js_name(e.server_name),
    )
}

/// The flags of one entry agree: a probe verified it exactly when navigation
/// was tested and worked, and then it is ready; it is degraded exactly when
/// the test failed; call hierarchy is verified only with navigation; an
/// unavailable language carries no probe outcome.
pub open spec fn entry_flags_ok(e: LspLanguageHealth) -> bool {
    &&& e.probe_verified <==> e.navigation_tested == Some(true)
    &&& (e.status == HealthStatus::Degraded) <==> e.navigation_tested == Some(false)
    &&& e.probe_verified ==> e.status == HealthStatus::Ready
    &&& e.call_hierarchy_verified ==> e.probe_verified
    &&& e.navigation_verified == e.navigation_tested
    &&& e.status == HealthStatus::Unavailable ==> {
        &&& !e.probe_verified
        &&& e.navigation_tested is None
        &&& e.last_probe_age_secs is None
    }
}

/// Some language in `langs` has status `s`.
pub open spec fn has_status(langs: Seq<LspLanguageHealth>, s: HealthStatus) -> bool {
    exists|i: int| 0 <= i < langs.len() && (#[trigger] langs[i]).status == s
}

/// The overall status of a set of entries: ready if any is ready, else
/// degraded if any is, else warming up, else starting, else unavailable.
pub open spec fn status_by_order(langs: Seq<LspLanguageHealth>) -> HealthStatus {
    if has_status(langs, HealthStatus::Ready) {
        HealthStatus::Ready
    } else if has_status(langs, HealthStatus::Degraded) {
        HealthStatus::Degraded
    } else if has_status(langs, HealthStatus::WarmingUp) {
        HealthStatus::WarmingUp
    } else if has_status(langs, HealthStatus::Starting) {
        HealthStatus::Starting
    } else {
        HealthStatus::Unavailable
    }
}

/// The overall status kept while the report is built: ready while some
/// language is or was ready, else the order of the entries' statuses.
pub open spec fn building_status(langs: Seq<LspLanguageHealth>) -> HealthStatus {
    if has_status(langs, HealthStatus::Degraded) {
        HealthStatus::Ready
    } else {
        status_by_order(langs)
    }
}

/// The missing languages that match the filter.
pub open spec fn kept_missing(missing: Seq<MissingLanguage>, filter: Option<String>) -> Seq<
    MissingLanguage,
>
    decreases missing.len(),
{
    if missing.len() == 0 {
        Seq::empty()
    } else {
        let rest = kept_missing(missing.drop_last(), filter);
        if matches_filter(missing.last().language_id@, filter) {
            rest.push(missing.last())
        } else {
            rest
        }
    }
}

/// The entry of a language whose server is missing.
pub open spec fn missing_entry_fits(e: LspLanguageHealth, m: MissingLanguage) -> bool {
    &&& e.language@ == m.language_id@
    &&& e.status == HealthStatus::Unavailable
    &&& e.uptime is None
    &&& e.diagnostics_strategy is None
    &&& e.supports_call_hierarchy is None
    &&& e.supports_diagnostics is None
    &&& e.supports_definition is None
    &&& e.indexing_status is None
    &&& e.navigation_ready is None
    &&& !e.probe_verified
    &&& e.navigation_tested is None
    &&& e.navigation_verified is None
    &&& !e.call_hierarchy_verified
    &&& e.install_hint matches Some(h) && h@ == m.install_hint@
    &&& e.server_name is None
    &&& e.registrations_received is None
    &&& e.indexing_progress_percent is None
    &&& e.degraded_tools@.map_values(|t: DegradedToolInfo| t@) == seq![
        tool_note("trace", "unavailable", "No LSP available. Use search for manual reference search."),
        tool_note("inspect", "unavailable", "No LSP available. Returns source only, no dependency signatures."),
    ]
    &&& e.indexing_source is None
    &&& e.indexing_duration_secs is None
    &&& e.last_probe_age_secs is None
}

/// The overall status of the finished report.
pub open spec fn final_status(
    overall: HealthStatus,
    langs: Seq<LspLanguageHealth>,
    total: nat,
    filter: Option<String>,
) -> HealthStatus {
    if total == 0 && filter is None {
        HealthStatus::Unavailable
    } else if !has_ready(langs) && overall == HealthStatus::Ready {
        HealthStatus::Degraded
    } else {
        overall
    }
}

/// The language ids of the missing servers.
pub open spec fn missing_ids(missing: Seq<MissingLanguage>) -> Seq<Seq<char>> {
    Seq::new(missing.len(), |i: int| missing[i].language_id@)
}

pub open spec fn missing_binaries_note(missing: Seq<MissingLanguage>) -> Seq<Seq<char>> {
    if missing.len() == 0 {
        Seq::empty()
    } else {
        seq![
            "Missing LSP binaries for: "@ + join_seqs(missing_ids(missing), ", "@)
                + ". Install them for full navigation support."@,
        ]
    }
}

/// The note for a language that has definitions but no call hierarchy.
pub open spec fn hierarchy_note(l: LspLanguageHealth) -> Seq<char> {
    if ts_js_name(l.server_name) {
        l.language@
            + ": Call hierarchy not available for this TypeScript/JavaScript language server (requires TypeScript 3.8.0+) — trace uses grep fallback (less accurate)"@
    } else {
        l.language@ + ": call hierarchy not supported — trace uses grep fallback (less accurate)"@
    }
}

pub open spec fn hierarchy_notes(langs: Seq<LspLanguageHealth>) -> Seq<Seq<char>>
    decreases langs.len(),
{
    if langs.len() == 0 {
        Seq::empty()
    } else {
        let l = langs.last();
        let rest = hierarchy_notes(langs.drop_last());
        if l.supports_call_hierarchy == Some(false) && l.supports_definition == Some(true) {
            rest.push(hierarchy_note(l))
        } else {
            rest
        }
    }
}

pub open spec fn warm_start_note(warm_start_complete: bool) -> Seq<Seq<char>> {
    if warm_start_complete {
        Seq::empty()
    } else {
        seq![
            "LSP warm_start still in progress — results may be incomplete until indexing finishes"@,
        ]
    }
}

pub open spec fn registration_notes(langs: Seq<LspLanguageHealth>) -> Seq<Seq<char>>
    decreases langs.len(),
{
    if langs.len() == 0 {
        Seq::empty()
    } else {
        let l = langs.last();
        let rest = registration_notes(langs.drop_last());
        if l.navigation_ready is None && l.status != HealthStatus::Unavailable {
            rest.push(
                l.language@
                    + ": dynamic capability registration may still be in progress — retry health in a few seconds"@,
            )
        } else {
            rest
        }
    }
}

/// The known limitations of a finished report, in order: missing servers,
/// languages without call hierarchy, an unfinished warm start, languages
/// whose capabilities may still be registering.
pub open spec fn known_limitations_of(
    missing: Seq<MissingLanguage>,
    langs: Seq<LspLanguageHealth>,
    warm_start_complete: bool,
) -> Seq<Seq<char>> {
    missing_binaries_note(missing) + hierarchy_notes(langs) + warm_start_note(warm_start_complete)
        + registration_notes(langs)
}

/// Indexing counts as complete when no language reports it in progress.
pub open spec fn all_indexed(langs: Seq<LspLanguageHealth>) -> bool {
    forall|i: int|
        0 <= i < langs.len() ==> (#[trigger] langs[i]).indexing_status != Some(
            IndexingStatus::InProgress,
        )
}

fn missing_entry(m: &MissingLanguage) -> (e: LspLanguageHealth)
    ensures
        missing_entry_fits(e, *m),
{
    let mut tools: Vec<DegradedToolInfo> = Vec::new();
    tools.push(note("trace", "unavailable", "No LSP available. Use search for manual reference search."));
    tools.push(note("inspect", "unavailable", "No LSP available. Returns source only, no dependency signatures."));
    assert(tools@.map_values(|t: DegradedToolInfo| t@) =~= seq![
        tool_note("trace", "unavailable", "No LSP available. Use search for manual reference search."),
        tool_note("inspect", "unavailable", "No LSP available. Returns source only, no dependency signatures."),
    ]);
    LspLanguageHealth {
        language: m.language_id.clone(),
        status: HealthStatus::Unavailable,
        uptime: None,
        diagnostics_strategy: None,
        supports_call_hierarchy: None,
        supports_diagnostics: None,
        supports_definition: None,
        indexing_status: None,
        navigation_ready: None,
        probe_verified: false,
        navigation_tested: None,
        navigation_verified: None,
        call_hierarchy_verified: false,
        install_hint: Some(m.install_hint.clone()),
        server_name: None,
        registrations_received: None,
        indexing_progress_percent: None,
        degraded_tools: tools,
        indexing_source: None,
        indexing_duration_secs: None,
        last_probe_age_secs: None,
    }
}

/// The known limitations of the finished report.
fn known_limitations(
    missing: &Vec<MissingLanguage>,
    langs: &Vec<LspLanguageHealth>,
    warm_start_complete: bool,
) -> (r: Vec<String>)
    ensures
        views(r@) == known_limitations_of(missing@, langs@, warm_start_complete),
{
    let mut notes: Vec<String> = Vec::new();
    if missing.len() > 0 {
        let mut ids = String::new();
        let mut k: usize = 0;
        while k < missing.len()
            invariant
                k <= missing.len(),
                ids@ == join_seqs(missing_ids(missing@.take(k as int)), ", "@),
            decreases missing.len() - k,
        {
            let ghost before = ids@;
            if k > 0 {
                push_str(&mut ids, ", ");
            }
            push_str(&mut ids, missing[k].language_id.as_str());
            proof {
                let all = missing_ids(missing@.take(k + 1));
                assert(all.drop_last() =~= missing_ids(missing@.take(k as int)));
                assert(all.last() == missing@[k as int].language_id@);
                if k == 0 {
                    assert(ids@ =~= all[0]);
                } else {
                    assert(ids@ =~= join_seqs(all.drop_last(), ", "@) + ", "@ + all.last());
                }
            }
            k = k + 1;
        }
        assert(missing@.take(missing.len() as int) =~= missing@);
        let mut s = string_of("Missing LSP binaries for: ");
        push_str(&mut s, ids.as_str());
        push_str(&mut s, ". Install them for full navigation support.");
        notes.push(s);
    }
    assert(views(notes@) =~= missing_binaries_note(missing@));
    let ghost base = views(notes@);
    let mut i: usize = 0;
    while i < langs.len()
        invariant
            i <= langs.len(),
            base == missing_binaries_note(missing@),
            views(notes@) == base + hierarchy_notes(langs@.take(i as int)),
        decreases langs.len() - i,
    {
        let l = &langs[i];
        assert(langs@.take(i + 1).drop_last() =~= langs@.take(i as int));
        assert(langs@.take(i + 1).last() == langs@[i as int]);
        if l.supports_call_hierarchy == Some(false) && l.supports_definition == Some(true) {
            let ts_js = is_ts_js_server(l.server_name.as_ref());
            let mut s = string_of(l.language.as_str());
            if ts_js {
                push_str(&mut s, ": Call hierarchy not available for this TypeScript/JavaScript language server (requires TypeScript 3.8.0+) — trace uses grep fallback (less accurate)");
            } else {
                push_str(&mut s, ": call hierarchy not supported — trace uses grep fallback (less accurate)");
            }
            let ghost prev = notes@;
            notes.push(s);
            assert(hierarchy_notes(langs@.take(i + 1)) == hierarchy_notes(langs@.take(i as int)).push(
                hierarchy_note(langs@[i as int]),
            ));
            assert(notes@ == prev.push(s));
            assert(views(notes@) =~= views(prev).push(s@));
            assert(views(notes@) =~= base + hierarchy_notes(langs@.take(i + 1)));
        } else {
            assert(views(notes@) =~= base + hierarchy_notes(langs@.take(i + 1)));
        }
        i = i + 1;
    }
    assert(langs@.take(langs.len() as int) =~= langs@);
    if !warm_start_complete {
        notes.push(string_of("LSP warm_start still in progress — results may be incomplete until indexing finishes"));
    }
    let ghost base2 = views(notes@);
    assert(base2 =~= missing_binaries_note(missing@) + hierarchy_notes(langs@) + warm_start_note(
        warm_start_complete,
    ));
    let mut j: usize = 0;
    while j < langs.len()
        invariant
            j <= langs.len(),
            views(notes@) == base2 + registration_notes(langs@.take(j as int)),
        decreases langs.len() - j,
    {
        let l = &langs[j];
        assert(langs@.take(j + 1).drop_last() =~= langs@.take(j as int));
        assert(langs@.take(j + 1).last() == langs@[j as int]);
        if l.navigation_ready.is_none() && l.status != HealthStatus::Unavailable {
            let mut s = string_of(l.language.as_str());
            push_str(&mut s, ": dynamic capability registration may still be in progress — retry health in a few seconds");
            let ghost prev = notes@;
            notes.push(s);
            assert(views(notes@) =~= views(prev).push(s@));
        }
        assert(views(notes@) =~= base2 + registration_notes(langs@.take(j + 1)));
        j = j + 1;
    }
    assert(langs@.take(langs.len() as int) =~= langs@);
    notes
}

proof fn lemma_final_status_by_order(
    overall: HealthStatus,
    built: Seq<LspLanguageHealth>,
    all: Seq<LspLanguageHealth>,
    filter: Option<String>,
)
    requires
        overall == building_status(built),
        built.len() <= all.len(),
        forall|j: int| 0 <= j < built.len() ==> all[j] == built[j],
        forall|j: int| built.len() <= j < all.len() ==> (#[trigger] all[j]).status
            == HealthStatus::Unavailable,
    ensures
        final_status(overall, built, all.len() as nat, filter) == status_by_order(all),
{
    assert forall|s: HealthStatus| s != HealthStatus::Unavailable implies has_status(all, s)
        == has_status(built, s) by {
        if has_status(all, s) {
            let j = choose|j: int| 0 <= j < all.len() && (#[trigger] all[j]).status == s;
            assert(all[j].status == s);
            assert(j < built.len());
            assert(built[j].status == s);
        }
        if has_status(built, s) {
            let j = choose|j: int| 0 <= j < built.len() && (#[trigger] built[j]).status == s;
            assert(all[j] == built[j]);
        }
    }
    assert(has_ready(built) == has_status(built, HealthStatus::Ready));
    assert(has_status(all, HealthStatus::Ready) == has_status(built, HealthStatus::Ready));
    assert(has_status(all, HealthStatus::Degraded) == has_status(built, HealthStatus::Degraded));
    assert(has_status(all, HealthStatus::WarmingUp) == has_status(built, HealthStatus::WarmingUp));
    assert(has_status(all, HealthStatus::Starting) == has_status(built, HealthStatus::Starting));
}

impl HealthReport {
    /// Every uptime text reads back to a number of seconds that fits a `u64`.
    pub open spec fn uptimes_readable(&self) -> bool {
        forall|i: int|
            0 <= i < self.languages.len() ==> ((#[trigger] self.languages[i]).uptime matches Some(t)
                ==> crate::uptime::uptime_seconds(t@) <= u64::MAX)
    }

    /// A ready language makes the overall status ready.
    pub open spec fn ready_is_overall(&self) -> bool {
        (exists|i: int|
            0 <= i < self.languages.len() && (#[trigger] self.languages[i]).status
                == HealthStatus::Ready) ==> self.overall == HealthStatus::Ready
    }

    /// Every entry's flags agree and its degraded tools follow its signals.
    pub open spec fn flags_ok(&self) -> bool {
        forall|i: int|
            0 <= i < self.languages.len() ==> entry_flags_ok(#[trigger] self.languages[i])
                && tools_fit(self.languages[i])
    }

    /// The overall status follows the entries' statuses as the report is
    /// built.
    pub open spec fn overall_tracks(&self) -> bool {
        self.overall == building_status(self.languages@)
    }

    /// First pass: one entry per reported language, in the manager's order,
    /// and the best of their statuses as the overall status.
    pub fn new(caps: &Vec<(String, LspLanguageStatus)>, filter: &Option<String>) -> (r: HealthReport)
        ensures
            r.languages.len() == kept_languages(caps@, *filter).len(),
            forall|i: int|
                0 <= i < r.languages.len() ==> entry_fits(
                    #[trigger] r.languages[i],
                    kept_languages(caps@, *filter)[i].0,
                    kept_languages(caps@, *filter)[i].1,
                ),
            r.overall == first_pass_overall(kept_languages(caps@, *filter)),
            r.uptimes_readable(),
            r.ready_is_overall(),
            r.flags_ok(),
            r.overall_tracks(),
    {
        let mut languages: Vec<LspLanguageHealth> = Vec::new();
        let mut overall = HealthStatus::Unavailable;
        let mut i: usize = 0;
        while i < caps.len()
            invariant
                i <= caps.len(),
                languages.len() == kept_languages(caps@.take(i as int), *filter).len(),
                forall|j: int|
                    0 <= j < languages.len() ==> entry_fits(
                        #[trigger] languages[j],
                        kept_languages(caps@.take(i as int), *filter)[j].0,
                        kept_languages(caps@.take(i as int), *filter)[j].1,
                    ),
                overall == first_pass_overall(kept_languages(caps@.take(i as int), *filter)),
            decreases caps.len() - i,
        {
            let ghost before = kept_languages(caps@.take(i as int), *filter);
            assert(caps@.take(i + 1).drop_last() =~= caps@.take(i as int));
            assert(caps@.take(i + 1).last() == caps@[i as int]);
            let lang = &caps[i].0;
            let status = &caps[i].1;
            let keep = match filter {
                Some(f) => f.eq(lang),
                None => true,
            };
            assert(keep == matches_filter(caps@.take(i + 1).last().0@, *filter));
            if keep {
                let e = language_entry(lang, status);
                let (s, _u) = classify_language(status);
                overall = merge_overall(overall, s);
                languages.push(e);
                proof {
                    let after = kept_languages(caps@.take(i + 1), *filter);
                    assert(after == before.push(caps@[i as int]));
                    assert(after.drop_last() =~= before);
                    assert forall|j: int| 0 <= j < languages.len() implies entry_fits(
                        #[trigger] languages[j],
                        after[j].0,
                        after[j].1,
                    ) by {
                        if j < languages.len() - 1 {
                            assert(after[j] == before[j]);
                        }
                    }
                }
            } else {
                assert(kept_languages(caps@.take(i + 1), *filter) == before);
            }
            i = i + 1;
        }
        assert(caps@.take(caps.len() as int) =~= caps@);
        let r = HealthReport { languages, overall };
        proof {
            let kept = kept_languages(caps@, *filter);
            assert forall|j: int| 0 <= j < r.languages.len() implies ((
            #[trigger] r.languages[j]).uptime matches Some(t) ==> crate::uptime::uptime_seconds(t@)
                <= u64::MAX) by {
                if let Some(u) = kept[j].1.uptime_seconds {
                    crate::uptime::law_uptime_round_trip(u);
                }
            }
            law_first_pass_overall_is_best(kept);
            assert forall|j: int| 0 <= j < r.languages.len() implies entry_flags_ok(
                #[trigger] r.languages[j],
            ) && tools_fit(r.languages[j]) by {
                assert(entry_fits(r.languages[j], kept[j].0, kept[j].1));
            }
            lemma_first_pass_tracks(kept, r.languages@);
            if exists|j: int|
                0 <= j < r.languages.len() && (#[trigger] r.languages[j]).status
                    == HealthStatus::Ready {
                let j = choose|j: int|
                    0 <= j < r.languages.len() && (#[trigger] r.languages[j]).status
                        == HealthStatus::Ready;
                assert(status_of(kept[j].1) == HealthStatus::Ready);
            }
        }
        r
    }

    /// Whether the warming-up language at `i` has run long enough (more than
    /// ten seconds by its uptime text) to be probed.
    pub fn warming_probe_due(&self, i: usize) -> (r: bool)
        requires
            i < self.languages.len(),
            self.uptimes_readable(),
        ensures
            r == (self.languages[i as int].status == HealthStatus::WarmingUp && (match self.languages[i as int].uptime {
                Some(t) => crate::uptime::uptime_seconds(t@) > 10,
                None => false,
            })),
    {
        if self.languages[i].status != HealthStatus::WarmingUp {
            return false;
        }
        match &self.languages[i].uptime {
            None => false,
            Some(t) => {
                assert(crate::uptime::uptime_seconds(t@) <= u64::MAX);
                proof {
                    crate::uptime::lemma_uptime_seconds_nonneg(t@);
                }
                match crate::uptime::parse_uptime_to_seconds(Some(t.as_str())) {
                    Some(secs) => secs > 10,
                    None => false,
                }
            },
        }
    }

    /// The language at `i` proved ready, by a probe or a cached positive
    /// result: it becomes ready and verified, its degraded tools follow, and
    /// the overall status becomes ready.
    pub fn mark_probe_ready(&mut self, i: usize, call_hierarchy_verified: bool)
        requires
            i < old(self).languages.len(),
            old(self).uptimes_readable(),
            old(self).ready_is_overall(),
            old(self).flags_ok(),
            old(self).overall_tracks(),
        ensures
            final(self).languages.len() == old(self).languages.len(),
            final(self).languages[i as int].status == HealthStatus::Ready,
            final(self).languages[i as int].probe_verified,
            final(self).languages[i as int].navigation_tested == Some(true),
            final(self).languages[i as int].navigation_verified == Some(true),
            final(self).languages[i as int].call_hierarchy_verified == call_hierarchy_verified,
            final(self).languages[i as int].last_probe_age_secs == old(
                self,
            ).languages[i as int].last_probe_age_secs,
            tools_fit(final(self).languages[i as int]),
            same_but_probe(final(self).languages[i as int], old(self).languages[i as int]),
            forall|j: int|
                0 <= j < old(self).languages.len() && j != i ==> final(self).languages[j]
                    == old(self).languages[j],
            final(self).overall == HealthStatus::Ready,
            final(self).uptimes_readable(),
            final(self).ready_is_overall(),
            final(self).flags_ok(),
            final(self).overall_tracks(),
    {
        let tools = compute_degraded_tools_from_health(
            Some(true),
            self.languages[i].navigation_ready,
            self.languages[i].supports_definition,
            self.languages[i].supports_call_hierarchy,
            self.languages[i].server_name.as_ref(),
        );
        self.languages[i].status = HealthStatus::Ready;
        self.languages[i].probe_verified = true;
        self.languages[i].navigation_tested = Some(true);
        self.languages[i].navigation_verified = Some(true);
        self.languages[i].call_hierarchy_verified = call_hierarchy_verified;
        self.languages[i].degraded_tools = tools;
        self.overall = HealthStatus::Ready;
        proof {
            self.lemma_after_update(*old(self), i as int);
            assert(has_status(self.languages@, HealthStatus::Ready));
        }
    }

    /// The ready language at `i` answered its liveness check (or a fresh
    /// cached result stands for it): it is marked verified and its degraded
    /// tools follow.
    pub fn mark_alive(&mut self, i: usize, call_hierarchy_verified: bool)
        requires
            i < old(self).languages.len(),
            old(self).languages[i as int].status == HealthStatus::Ready,
            old(self).uptimes_readable(),
            old(self).ready_is_overall(),
            old(self).flags_ok(),
            old(self).overall_tracks(),
        ensures
            final(self).languages.len() == old(self).languages.len(),
            final(self).languages[i as int].status == HealthStatus::Ready,
            final(self).languages[i as int].probe_verified,
            final(self).languages[i as int].navigation_tested == Some(true),
            final(self).languages[i as int].navigation_verified == Some(true),
            final(self).languages[i as int].call_hierarchy_verified == call_hierarchy_verified,
            final(self).languages[i as int].last_probe_age_secs == old(
                self,
            ).languages[i as int].last_probe_age_secs,
            tools_fit(final(self).languages[i as int]),
            same_but_probe(final(self).languages[i as int], old(self).languages[i as int]),
            forall|j: int|
                0 <= j < old(self).languages.len() && j != i ==> final(self).languages[j]
                    == old(self).languages[j],
            final(self).overall == old(self).overall,
            final(self).uptimes_readable(),
            final(self).ready_is_overall(),
            final(self).flags_ok(),
            final(self).overall_tracks(),
    {
        let tools = compute_degraded_tools_from_health(
            Some(true),
            self.languages[i].navigation_ready,
            self.languages[i].supports_definition,
            self.languages[i].supports_call_hierarchy,
            self.languages[i].server_name.as_ref(),
        );
        self.languages[i].probe_verified = true;
        self.languages[i].navigation_tested = Some(true);
        self.languages[i].navigation_verified = Some(true);
        self.languages[i].call_hierarchy_verified = call_hierarchy_verified;
        self.languages[i].degraded_tools = tools;
        proof {
            self.lemma_after_update(*old(self), i as int);
            self.lemma_same_statuses(*old(self));
        }
    }

    /// The ready language at `i` failed its liveness check: it is downgraded
    /// to degraded and unverified, and `locate`, `trace` and `inspect` are
    /// listed as degraded.
    pub fn mark_dead(&mut self, i: usize)
        requires
            i < old(self).languages.len(),
            old(self).languages[i as int].status == HealthStatus::Ready,
            old(self).uptimes_readable(),
            old(self).ready_is_overall(),
            old(self).flags_ok(),
            old(self).overall_tracks(),
        ensures
            final(self).languages.len() == old(self).languages.len(),
            final(self).languages[i as int].status == HealthStatus::Degraded,
            !final(self).languages[i as int].probe_verified,
            final(self).languages[i as int].navigation_tested == Some(false),
            final(self).languages[i as int].navigation_verified == Some(false),
            !final(self).languages[i as int].call_hierarchy_verified,
            final(self).languages[i as int].last_probe_age_secs == old(
                self,
            ).languages[i as int].last_probe_age_secs,
            final(self).languages[i as int].degraded_tools@.map_values(|t: DegradedToolInfo| t@)
                == seq![
                tool_note("locate", "degraded", "LSP did not answer its probe. Uses grep heuristic until the server responds again."),
                tool_note("trace", "degraded", "LSP did not answer its probe. Uses grep fallback until the server responds again."),
                tool_note("inspect", "degraded", "LSP did not answer its probe. Returns source only (no dep signatures) until the server responds again."),
            ],
            tools_fit(final(self).languages[i as int]),
            same_but_probe(final(self).languages[i as int], old(self).languages[i as int]),
            forall|j: int|
                0 <= j < old(self).languages.len() && j != i ==> final(self).languages[j]
                    == old(self).languages[j],
            final(self).overall == old(self).overall,
            final(self).uptimes_readable(),
            final(self).ready_is_overall(),
            final(self).flags_ok(),
            final(self).overall_tracks(),
    {
        let tools = compute_degraded_tools_from_health(
            Some(false),
            self.languages[i].navigation_ready,
            self.languages[i].supports_definition,
            self.languages[i].supports_call_hierarchy,
            self.languages[i].server_name.as_ref(),
        );
        self.languages[i].status = HealthStatus::Degraded;
        self.languages[i].probe_verified = false;
        self.languages[i].navigation_tested = Some(false);
        self.languages[i].navigation_verified = Some(false);
        self.languages[i].call_hierarchy_verified = false;
        self.languages[i].degraded_tools = tools;
        proof {
            self.lemma_after_update(*old(self), i as int);
            assert(has_status(old(self).languages@, HealthStatus::Ready));
            assert(has_status(self.languages@, HealthStatus::Degraded));
        }
    }

    /// The plan for the entry at `i` in pass `phase`, given the cache's
    /// `action` and, for the liveness pass, whether a probe file exists; the
    /// warming pass probes only once the entry is due.
    pub fn plan_entry(&self, i: usize, phase: ProbePhase, action: ProbeAction, has_probe_file: bool) -> (r:
        EntryPlan)
        requires
            i < self.languages.len(),
            self.uptimes_readable(),
        ensures
            r == spec_entry_plan(
                phase,
                self.languages[i as int].status,
                action,
                self.languages[i as int].status == HealthStatus::WarmingUp && (match self.languages[i as int].uptime {
                    Some(t) => crate::uptime::uptime_seconds(t@) > 10,
                    None => false,
                }),
                has_probe_file,
            ),
    {
        let wanted = match phase {
            ProbePhase::Warming => HealthStatus::WarmingUp,
            ProbePhase::Liveness => HealthStatus::Ready,
        };
        if self.languages[i].status != wanted {
            return EntryPlan::Leave;
        }
        match action {
            ProbeAction::UseCachedReady { call_hierarchy_verified } => EntryPlan::UseCached {
                call_hierarchy_verified,
            },
            ProbeAction::SkipProbe => EntryPlan::Leave,
            ProbeAction::Probe => {
                let go = match phase {
                    ProbePhase::Warming => self.warming_probe_due(i),
                    ProbePhase::Liveness => has_probe_file,
                };
                if go {
                    EntryPlan::Probe
                } else {
                    EntryPlan::Leave
                }
            },
        }
    }

    /// Applies the outcome of pass `phase` to the entry at `i`: a warming-up
    /// entry proved ready becomes ready and verified, a ready entry that
    /// answered is marked verified, one that did not becomes degraded, and
    /// anything else is left as it is.
    pub fn settle_entry(
        &mut self,
        i: usize,
        phase: ProbePhase,
        plan: EntryPlan,
        verdict: Option<(bool, bool)>,
    ) -> (out: EntryOutcome)
        requires
            i < old(self).languages.len(),
            old(self).uptimes_readable(),
            old(self).ready_is_overall(),
            old(self).flags_ok(),
            old(self).overall_tracks(),
        ensures
            out == spec_entry_outcome(phase, old(self).languages[i as int].status, plan, verdict),
            final(self).languages.len() == old(self).languages.len(),
            final(self).uptimes_readable(),
            final(self).ready_is_overall(),
            final(self).flags_ok(),
            final(self).overall_tracks(),
            forall|j: int|
                0 <= j < old(self).languages.len() && j != i ==> final(self).languages[j]
                    == old(self).languages[j],
            out == EntryOutcome::Unchanged ==> *final(self) == *old(self),
            out != EntryOutcome::Unchanged ==> same_but_probe(
                final(self).languages[i as int],
                old(self).languages[i as int],
            ) && tools_fit(final(self).languages[i as int]),
            match out {
                EntryOutcome::BecameReady { call_hierarchy_verified } => {
                    &&& final(self).languages[i as int].status == HealthStatus::Ready
                    &&& final(self).languages[i as int].probe_verified
                    &&& final(self).languages[i as int].navigation_verified == Some(true)
                    &&& final(self).languages[i as int].call_hierarchy_verified
                        == call_hierarchy_verified
                    &&& final(self).overall == HealthStatus::Ready
                },
                EntryOutcome::StillAlive { call_hierarchy_verified } => {
                    &&& final(self).languages[i as int].status == HealthStatus::Ready
                    &&& final(self).languages[i as int].probe_verified
                    &&& final(self).languages[i as int].navigation_verified == Some(true)
                    &&& final(self).languages[i as int].call_hierarchy_verified
                        == call_hierarchy_verified
                    &&& final(self).overall == old(self).overall
                },
                EntryOutcome::Died => {
                    &&& final(self).languages[i as int].status == HealthStatus::Degraded
                    &&& !final(self).languages[i as int].probe_verified
                    &&& final(self).languages[i as int].navigation_verified == Some(false)
                    &&& final(self).overall == old(self).overall
                },
                EntryOutcome::Unchanged => true,
            },
    {
        let status = self.languages[i].status;
        let wanted = match phase {
            ProbePhase::Warming => HealthStatus::WarmingUp,
            ProbePhase::Liveness => HealthStatus::Ready,
        };
        if status != wanted {
            return EntryOutcome::Unchanged;
        }
        let out = match plan {
            EntryPlan::Leave => EntryOutcome::Unchanged,
            EntryPlan::UseCached { call_hierarchy_verified } => match phase {
                ProbePhase::Warming => EntryOutcome::BecameReady { call_hierarchy_verified },
                ProbePhase::Liveness => EntryOutcome::StillAlive { call_hierarchy_verified },
            },
            EntryPlan::Probe => match verdict {
                Some((true, c)) => match phase {
                    ProbePhase::Warming => EntryOutcome::BecameReady { call_hierarchy_verified: c },
                    ProbePhase::Liveness => EntryOutcome::StillAlive { call_hierarchy_verified: c },
                },
                Some((false, _)) => match phase {
                    ProbePhase::Warming => EntryOutcome::Unchanged,
                    ProbePhase::Liveness => EntryOutcome::Died,
                },
                None => EntryOutcome::Unchanged,
            },
        };
        match out {
            EntryOutcome::BecameReady { call_hierarchy_verified } => {
                self.mark_probe_ready(i, call_hierarchy_verified);
            },
            EntryOutcome::StillAlive { call_hierarchy_verified } => {
                self.mark_alive(i, call_hierarchy_verified);
            },
            EntryOutcome::Died => {
                self.mark_dead(i);
            },
            EntryOutcome::Unchanged => {},
        }
        out
    }

    /// Records the age of the cached probe result of the language at `i`; a
    /// language that is unavailable shows none.
    pub fn stamp_probe_age(&mut self, i: usize, age_secs: Option<u64>)
        requires
            i < old(self).languages.len(),
            old(self).uptimes_readable(),
            old(self).ready_is_overall(),
            old(self).flags_ok(),
            old(self).overall_tracks(),
        ensures
            final(self).languages.len() == old(self).languages.len(),
            final(self).languages[i as int].last_probe_age_secs == (if old(
                self,
            ).languages[i as int].status == HealthStatus::Unavailable {
                None
            } else {
                age_secs
            }),
            final(self).languages[i as int] == (LspLanguageHealth {
                last_probe_age_secs: final(self).languages[i as int].last_probe_age_secs,
                ..old(self).languages[i as int]
            }),
            forall|j: int|
                0 <= j < old(self).languages.len() && j != i ==> final(self).languages[j]
                    == old(self).languages[j],
            final(self).overall == old(self).overall,
            final(self).uptimes_readable(),
            final(self).ready_is_overall(),
            final(self).flags_ok(),
            final(self).overall_tracks(),
    {
        if self.languages[i].status == HealthStatus::Unavailable {
            self.languages[i].last_probe_age_secs = None;
        } else {
            self.languages[i].last_probe_age_secs = age_secs;
        }
        proof {
            self.lemma_after_update(*old(self), i as int);
            self.lemma_same_statuses(*old(self));
        }
    }

    /// After an update of the entry at `i` that keeps its uptime, leaves the
    /// other entries alone and keeps the entry's flags and tools in order,
    /// uptimes stay readable and flags stay consistent.
    proof fn lemma_after_update(&self, before: HealthReport, i: int)
        requires
            0 <= i < before.languages.len(),
            self.languages.len() == before.languages.len(),
            before.uptimes_readable(),
            before.flags_ok(),
            self.languages[i].uptime == before.languages[i].uptime,
            entry_flags_ok(self.languages[i]),
            tools_fit(self.languages[i]),
            forall|j: int|
                0 <= j < before.languages.len() && j != i ==> self.languages[j]
                    == before.languages[j],
        ensures
            self.uptimes_readable(),
            self.flags_ok(),
    {
        assert forall|j: int| 0 <= j < self.languages.len() implies ((
        #[trigger] self.languages[j]).uptime matches Some(t) ==> crate::uptime::uptime_seconds(
            t@,
        ) <= u64::MAX) by {
            assert(self.languages[j].uptime == before.languages[j].uptime);
        }
        assert forall|j: int| 0 <= j < self.languages.len() implies entry_flags_ok(
            #[trigger] self.languages[j],
        ) && tools_fit(self.languages[j]) by {
            if j != i {
                assert(self.languages[j] == before.languages[j]);
            }
        }
    }

    /// Two reports whose entries have the same statuses keep the overall
    /// status in the same relation to them.
    proof fn lemma_same_statuses(&self, before: HealthReport)
        requires
            self.languages.len() == before.languages.len(),
            forall|j: int|
                0 <= j < self.languages.len() ==> (#[trigger] self.languages[j]).status
                    == before.languages[j].status,
            self.overall == before.overall,
            before.ready_is_overall(),
            before.overall_tracks(),
        ensures
            self.ready_is_overall(),
            self.overall_tracks(),
    {
        assert forall|s: HealthStatus| has_status(self.languages@, s) == has_status(
            before.languages@,
            s,
        ) by {
            if has_status(self.languages@, s) {
                let j = choose|j: int|
                    0 <= j < self.languages.len() && (#[trigger] self.languages@[j]).status == s;
                assert(before.languages@[j].status == s);
            }
            if has_status(before.languages@, s) {
                let j = choose|j: int|
                    0 <= j < before.languages.len() && (#[trigger] before.languages@[j]).status == s;
                assert(self.languages@[j].status == s);
            }
        }
        if exists|j: int|
            0 <= j < self.languages.len() && (#[trigger] self.languages[j]).status
                == HealthStatus::Ready {
            assert(has_status(self.languages@, HealthStatus::Ready));
        }
    }

    /// Finishes the report: downgrades the overall status when no language is
    /// ready any more, adds the languages whose server is missing, and adds
    /// the known limitations and the indexing summary.
    pub fn finish(
        self,
        missing: &Vec<MissingLanguage>,
        filter: &Option<String>,
        warm_start_complete: bool,
    ) -> (r: LspHealthResponse)
        requires
            self.ready_is_overall(),
            self.flags_ok(),
            self.overall_tracks(),
        ensures
            r.status == status_by_order(r.languages@),
            forall|i: int| 0 <= i < r.languages.len() ==> entry_flags_ok(#[trigger] r.languages[i]),
            r.languages.len() == self.languages.len() + kept_missing(missing@, *filter).len(),
            forall|i: int| 0 <= i < self.languages.len() ==> r.languages[i] == self.languages[i],
            forall|j: int|
                0 <= j < kept_missing(missing@, *filter).len() ==> missing_entry_fits(
                    #[trigger] r.languages[self.languages.len() + j],
                    kept_missing(missing@, *filter)[j],
                ),
            r.status == final_status(
                self.overall,
                self.languages@,
                r.languages.len() as nat,
                *filter,
            ),
            r.warm_start_complete == warm_start_complete,
            r.indexing_complete == all_indexed(r.languages@),
            views(r.known_limitations@) == known_limitations_of(
                missing@,
                r.languages@,
                warm_start_complete,
            ),
    {
        let ghost old_langs = self.languages@;
        let mut languages = self.languages;
        let mut any_ready = false;
        let mut i: usize = 0;
        while i < languages.len()
            invariant
                i <= languages.len(),
                languages@ == old_langs,
                any_ready == exists|j: int|
                    0 <= j < i && (#[trigger] languages[j]).status == HealthStatus::Ready,
            decreases languages.len() - i,
        {
            if languages[i].status == HealthStatus::Ready {
                any_ready = true;
            }
            i = i + 1;
        }
        let mut overall = self.overall;
        if !any_ready && overall == HealthStatus::Ready {
            overall = HealthStatus::Degraded;
        }
        let n = languages.len();
        let mut k: usize = 0;
        while k < missing.len()
            invariant
                k <= missing.len(),
                n == old_langs.len(),
                languages.len() == n + kept_missing(missing@.take(k as int), *filter).len(),
                forall|i: int| 0 <= i < n ==> languages[i] == old_langs[i],
                forall|j: int|
                    0 <= j < kept_missing(missing@.take(k as int), *filter).len()
                        ==> missing_entry_fits(
                        #[trigger] languages[n + j],
                        kept_missing(missing@.take(k as int), *filter)[j],
                    ),
            decreases missing.len() - k,
        {
            let ghost before = kept_missing(missing@.take(k as int), *filter);
            assert(missing@.take(k + 1).drop_last() =~= missing@.take(k as int));
            assert(missing@.take(k + 1).last() == missing@[k as int]);
            let m = &missing[k];
            let keep = match filter {
                Some(f) => f.eq(&m.language_id),
                None => true,
            };
            if keep {
                languages.push(missing_entry(m));
                proof {
                    let after = kept_missing(missing@.take(k + 1), *filter);
                    assert(after == before.push(missing@[k as int]));
                    assert forall|j: int| 0 <= j < after.len() implies missing_entry_fits(
                        #[trigger] languages[n + j],
                        after[j],
                    ) by {
                        if j < before.len() {
                            assert(after[j] == before[j]);
                        }
                    }
                }
            } else {
                assert(kept_missing(missing@.take(k + 1), *filter) == before);
            }
            k = k + 1;
        }
        assert(missing@.take(missing.len() as int) =~= missing@);
        if languages.len() == 0 && filter.is_none() {
            overall = HealthStatus::Unavailable;
        }
        let notes = known_limitations(missing, &languages, warm_start_complete);
        let mut indexed = true;
        let mut i: usize = 0;
        while i < languages.len()
            invariant
                i <= languages.len(),
                indexed == forall|j: int|
                    0 <= j < i ==> (#[trigger] languages[j]).indexing_status != Some(
                        IndexingStatus::InProgress,
                    ),
            decreases languages.len() - i,
        {
            if languages[i].indexing_status == Some(IndexingStatus::InProgress) {
                indexed = false;
            }
            i = i + 1;
        }
        proof {
            let km = kept_missing(missing@, *filter);
            assert forall|j: int| 0 <= j < languages.len() implies entry_flags_ok(
                #[trigger] languages[j],
            ) by {
                if j >= n {
                    assert(missing_entry_fits(languages[n + (j - n)], km[j - n]));
                } else {
                    assert(languages[j] == old_langs[j]);
                }
            }
            assert forall|j: int| n <= j < languages.len() implies (#[trigger] languages[j]).status
                == HealthStatus::Unavailable by {
                assert(missing_entry_fits(languages[n + (j - n)], km[j - n]));
            }
            lemma_final_status_by_order(self.overall, old_langs, languages@, *filter);
        }
        LspHealthResponse {
            status: overall,
            languages,
            warm_start_complete,
            indexing_complete: indexed,
            known_limitations: notes,
        }
    }
}

/// The word for a status in the report.
pub open spec fn status_text(s: HealthStatus) -> Seq<char> {
    match s {
        HealthStatus::Ready => "ready"@,
        HealthStatus::WarmingUp => "warming_up"@,
        HealthStatus::Starting => "starting"@,
        HealthStatus::Unavailable => "unavailable"@,
        HealthStatus::Degraded => "degraded"@,
    }
}

/// The word for a status in the report.
pub fn status_str(s: HealthStatus) -> (r: &'static str)
    ensures
        r@ == status_text(s),
{
    match s {
        HealthStatus::Ready => "ready",
        HealthStatus::WarmingUp => "warming_up",
        HealthStatus::Starting => "starting",
        HealthStatus::Unavailable => "unavailable",
        HealthStatus::Degraded => "degraded",
    }
}

/// The word for an indexing status in the report.
pub open spec fn indexing_text(s: IndexingStatus) -> Seq<char> {
    match s {
        IndexingStatus::Complete => "complete"@,
        IndexingStatus::InProgress => "in_progress"@,
    }
}

/// The details shown in brackets after a language's status.
pub open spec fn detail_parts(l: LspLanguageHealth) -> Seq<Seq<char>> {
    let verified: Seq<Seq<char>> = if l.probe_verified {
        seq!["probe_verified"@]
    } else {
        Seq::empty()
    };
    let server: Seq<Seq<char>> = match l.server_name {
        Some(n) => seq!["server: "@ + n@],
        None => Seq::empty(),
    };
    let regs: Seq<Seq<char>> = match l.registrations_received {
        Some(r) => if r > 0 {
            seq!["registrations: "@ + decimal(r as nat)]
        } else {
            Seq::empty()
        },
        None => Seq::empty(),
    };
    let indexing: Seq<Seq<char>> = match l.indexing_status {
        Some(idx) => match l.indexing_progress_percent {
            Some(pct) => seq!["indexing: "@ + decimal(pct as nat) + "%"@],
            None => if idx == IndexingStatus::Complete {
                seq!["indexing: 100% complete"@]
            } else {
                seq!["indexing: "@ + indexing_text(idx)]
            },
        },
        None => match l.indexing_progress_percent {
            Some(pct) => seq!["indexing: "@ + decimal(pct as nat) + "%"@],
            None => Seq::empty(),
        },
    };
    let uptime: Seq<Seq<char>> = match l.uptime {
        Some(u) => seq!["uptime: "@ + u@],
        None => Seq::empty(),
    };
    verified + server + regs + indexing + uptime
}

/// The reasons given for a language's degraded tools.
pub open spec fn reason_parts(l: LspLanguageHealth) -> Seq<Seq<char>> {
    (if l.supports_definition != Some(true) {
        seq!["supports_definition = false"@]
    } else {
        Seq::<Seq<char>>::empty()
    }) + (if l.supports_call_hierarchy != Some(true) {
        seq!["supports_call_hierarchy = false"@]
    } else {
        Seq::<Seq<char>>::empty()
    }) + (if l.supports_diagnostics != Some(true) {
        seq!["supports_diagnostics = false"@]
    } else {
        Seq::<Seq<char>>::empty()
    })
}

/// `tool (severity)` for each degraded tool.
pub open spec fn tool_labels(tools: Seq<DegradedToolInfo>) -> Seq<Seq<char>> {
    Seq::new(tools.len(), |i: int| tools[i].tool@ + " ("@ + tools[i].severity@ + ")"@)
}

/// The lines of the text summary for one language.
pub open spec fn language_lines(l: LspLanguageHealth) -> Seq<Seq<char>> {
    let details = detail_parts(l);
    let head = l.language@ + ": "@ + status_text(l.status) + (if details.len() == 0 {
        Seq::empty()
    } else {
        " ("@ + join_seqs(details, ", "@) + ")"@
    });
    if l.degraded_tools.len() == 0 {
        seq![head]
    } else {
        let tools = "  ⚠️ degraded_tools: "@ + join_seqs(tool_labels(l.degraded_tools@), ", "@);
        let reasons = reason_parts(l);
        if reasons.len() == 0 {
            seq![head, tools]
        } else {
            seq![head, tools, "  → Reason: "@ + join_seqs(reasons, ", "@) + ". Use search as fallback."@]
        }
    }
}

/// The lines of the text summary for all languages, in order.
pub open spec fn all_language_lines(langs: Seq<LspLanguageHealth>) -> Seq<Seq<char>>
    decreases langs.len(),
{
    if langs.len() == 0 {
        Seq::empty()
    } else {
        all_language_lines(langs.drop_last()) + language_lines(langs.last())
    }
}

/// The plain-text summary of a finished report.
pub open spec fn health_text_of(r: LspHealthResponse) -> Seq<char> {
    let lines = all_language_lines(r.languages@);
    if lines.len() == 0 {
        "LSP status: "@ + status_text(r.status) + " — no languages detected"@
    } else {
        let head = seq!["LSP status: "@ + status_text(r.status), join_seqs(lines, "\n"@)];
        let limits = views(r.known_limitations@);
        if limits.len() == 0 {
            join_seqs(head, "\n"@)
        } else {
            join_seqs(
                head.push(
                    "Known limitations:\n"@ + join_seqs(
                        Seq::new(limits.len(), |i: int| "  - "@ + limits[i]),
                        "\n"@,
                    ),
                ),
                "\n"@,
            )
        }
    }
}

/// Joins `parts` with `sep`, like `join_strings`, for a vector built here.
fn join_all(parts: &Vec<String>, sep: &str) -> (r: String)
    ensures
        r@ == join_seqs(views(parts@), sep@),
{
    join_strings(parts, sep)
}

fn push_view(v: &mut Vec<String>, s: String)
    ensures
        views(final(v)@) == views(old(v)@).push(s@),
{
    let ghost before = v@;
    v.push(s);
    assert(views(v@) =~= views(before).push(s@));
}

/// The details shown after a language's status.
fn details_of(l: &LspLanguageHealth) -> (r: Vec<String>)
    ensures
        views(r@) == detail_parts(*l),
{
    let mut parts: Vec<String> = Vec::new();
    if l.probe_verified {
        push_view(&mut parts, string_of("probe_verified"));
    }
    let ghost p1 = views(parts@);
    if let Some(name) = &l.server_name {
        let mut s = string_of("server: ");
        push_str(&mut s, name.as_str());
        push_view(&mut parts, s);
    }
    let ghost p2 = views(parts@);
    if let Some(regs) = l.registrations_received {
        if regs > 0 {
            let mut s = string_of("registrations: ");
            push_decimal(&mut s, regs as u64);
            push_view(&mut parts, s);
        }
    }
    let ghost p3 = views(parts@);
    match l.indexing_status {
        Some(idx) => match l.indexing_progress_percent {
            Some(pct) => {
                let mut s = string_of("indexing: ");
                push_decimal(&mut s, pct as u64);
                push_str(&mut s, "%");
                push_view(&mut parts, s);
            },
            None => {
                if idx == IndexingStatus::Complete {
                    push_view(&mut parts, string_of("indexing: 100% complete"));
                } else {
                    push_view(&mut parts, string_of("indexing: in_progress"));
                    proof {
                        reveal_strlit("indexing: in_progress");
                        reveal_strlit("indexing: ");
                        reveal_strlit("in_progress");
                        assert("indexing: in_progress"@ =~= "indexing: "@ + "in_progress"@);
                    }
                }
            },
        },
        None => match l.indexing_progress_percent {
            Some(pct) => {
                let mut s = string_of("indexing: ");
                push_decimal(&mut s, pct as u64);
                push_str(&mut s, "%");
                push_view(&mut parts, s);
            },
            None => {},
        },
    }
    let ghost p4 = views(parts@);
    if let Some(u) = &l.uptime {
        let mut s = string_of("uptime: ");
        push_str(&mut s, u.as_str());
        push_view(&mut parts, s);
    }
    assert(views(parts@) =~= detail_parts(*l));
    parts
}

/// The reasons given for a language's degraded tools.
fn reasons_of(l: &LspLanguageHealth) -> (r: Vec<String>)
    ensures
        views(r@) == reason_parts(*l),
{
    let mut parts: Vec<String> = Vec::new();
    if l.supports_definition != Some(true) {
        push_view(&mut parts, string_of("supports_definition = false"));
    }
    if l.supports_call_hierarchy != Some(true) {
        push_view(&mut parts, string_of("supports_call_hierarchy = false"));
    }
    if l.supports_diagnostics != Some(true) {
        push_view(&mut parts, string_of("supports_diagnostics = false"));
    }
    assert(views(parts@) =~= reason_parts(*l));
    parts
}

/// The lines of the text summary for one language.
#[verifier::spinoff_prover]
#[verifier::rlimit(40)]
fn lines_of(l: &LspLanguageHealth) -> (r: Vec<String>)
    ensures
        views(r@) == language_lines(*l),
{
    let details = details_of(l);
    let mut head = string_of(l.language.as_str());
    push_str(&mut head, ": ");
    push_str(&mut head, status_str(l.status));
    if details.len() > 0 {
        push_str(&mut head, " (");
        push_str(&mut head, join_all(&details, ", ").as_str());
        push_str(&mut head, ")");
    }
    let ghost details_text: Seq<char> = if details@.len() == 0 {
        Seq::empty()
    } else {
        " ("@ + join_seqs(detail_parts(*l), ", "@) + ")"@
    };
    assert(head@ =~= l.language@ + ": "@ + status_text(l.status) + details_text);
    let mut lines: Vec<String> = Vec::new();
    push_view(&mut lines, head);
    if l.degraded_tools.len() > 0 {
        let mut labels: Vec<String> = Vec::new();
        let mut i: usize = 0;
        while i < l.degraded_tools.len()
            invariant
                i <= l.degraded_tools.len(),
                views(labels@) =~= tool_labels(l.degraded_tools@.take(i as int)),
            decreases l.degraded_tools.len() - i,
        {
            let mut s = string_of(l.degraded_tools[i].tool.as_str());
            push_str(&mut s, " (");
            push_str(&mut s, l.degraded_tools[i].severity.as_str());
            push_str(&mut s, ")");
            push_view(&mut labels, s);
            i = i + 1;
        }
        assert(l.degraded_tools@.take(l.degraded_tools.len() as int) =~= l.degraded_tools@);
        let mut tools = string_of("  ⚠️ degraded_tools: ");
        push_str(&mut tools, join_all(&labels, ", ").as_str());
        push_view(&mut lines, tools);
        assert(tool_labels(l.degraded_tools@) =~= views(labels@));
        let reasons = reasons_of(l);
        if reasons.len() > 0 {
            let mut s = string_of("  → Reason: ");
            push_str(&mut s, join_all(&reasons, ", ").as_str());
            push_str(&mut s, ". Use search as fallback.");
            push_view(&mut lines, s);
        }
    }
    assert(views(lines@) =~= language_lines(*l));
    lines
}

/// The plain-text summary of a finished report: the overall status, the
/// lines of each language, and the known limitations.
pub fn health_text(r: &LspHealthResponse) -> (s: String)
    ensures
        s@ == health_text_of(*r),
{
    let mut lines: Vec<String> = Vec::new();
    let mut i: usize = 0;
    while i < r.languages.len()
        invariant
            i <= r.languages.len(),
            views(lines@) == all_language_lines(r.languages@.take(i as int)),
        decreases r.languages.len() - i,
    {
        let more = lines_of(&r.languages[i]);
        let mut k: usize = 0;
        let ghost before = views(lines@);
        while k < more.len()
            invariant
                k <= more.len(),
                views(lines@) == before + views(more@).take(k as int),
            decreases more.len() - k,
        {
            push_view(&mut lines, more[k].clone());
            assert(views(more@).take(k + 1) =~= views(more@).take(k as int).push(more@[k as int]@));
            k = k + 1;
        }
        assert(views(more@).take(more.len() as int) =~= views(more@));
        assert(r.languages@.take(i + 1).drop_last() =~= r.languages@.take(i as int));
        assert(views(lines@) =~= all_language_lines(r.languages@.take(i + 1)));
        i = i + 1;
    }
    assert(r.languages@.take(r.languages.len() as int) =~= r.languages@);
    if lines.len() == 0 {
        let mut s = string_of("LSP status: ");
        push_str(&mut s, status_str(r.status));
        push_str(&mut s, " — no languages detected");
        return s;
    }
    let mut parts: Vec<String> = Vec::new();
    let mut first = string_of("LSP status: ");
    push_str(&mut first, status_str(r.status));
    push_view(&mut parts, first);
    push_view(&mut parts, join_all(&lines, "\n"));
    let ghost head = seq![
        "LSP status: "@ + status_text(r.status),
        join_seqs(all_language_lines(r.languages@), "\n"@),
    ];
    assert(views(parts@) =~= head);
    if r.known_limitations.len() > 0 {
        let mut items: Vec<String> = Vec::new();
        let mut j: usize = 0;
        while j < r.known_limitations.len()
            invariant
                j <= r.known_limitations.len(),
                views(items@) =~= Seq::new(
                    j as nat,
                    |x: int| "  - "@ + views(r.known_limitations@)[x],
                ),
            decreases r.known_limitations.len() - j,
        {
            let mut s = string_of("  - ");
            push_str(&mut s, r.known_limitations[j].as_str());
            push_view(&mut items, s);
            j = j + 1;
        }
        let ghost limits = views(r.known_limitations@);
        assert(views(items@) =~= Seq::new(limits.len(), |x: int| "  - "@ + limits[x]));
        let mut block = string_of("Known limitations:\n");
        push_str(&mut block, join_all(&items, "\n").as_str());
        push_view(&mut parts, block);
        assert(views(parts@) =~= head.push(
            "Known limitations:\n"@ + join_seqs(
                Seq::new(limits.len(), |x: int| "  - "@ + limits[x]),
                "\n"@,
            ),
        ));
    }
    join_all(&parts, "\n")
}

/// In a finished report, the overall status is ready exactly when some
/// language in it is ready.
pub proof fn law_report_ready_iff_some_language_ready(
    report: HealthReport,
    missing: Seq<MissingLanguage>,
    filter: Option<String>,
    r: LspHealthResponse,
)
    requires
        report.ready_is_overall(),
        r.languages.len() == report.languages.len() + kept_missing(missing, filter).len(),
        forall|i: int| 0 <= i < report.languages.len() ==> r.languages[i] == report.languages[i],
        forall|j: int|
            0 <= j < kept_missing(missing, filter).len() ==> missing_entry_fits(
                #[trigger] r.languages[report.languages.len() + j],
                kept_missing(missing, filter)[j],
            ),
        r.status == final_status(
            report.overall,
            report.languages@,
            r.languages.len() as nat,
            filter,
        ),
    ensures
        (r.status == HealthStatus::Ready) <==> has_ready(r.languages@),
{
    let n = report.languages.len();
    if has_ready(r.languages@) {
        let i = choose|i: int|
            0 <= i < r.languages.len() && (#[trigger] r.languages@[i]).status == HealthStatus::Ready;
        if i >= n {
            assert(missing_entry_fits(r.languages[n + (i - n)], kept_missing(missing, filter)[i - n]));
        }
        assert(report.languages[i].status == HealthStatus::Ready);
        assert(has_ready(report.languages@));
    } else {
        if has_ready(report.languages@) {
            let i = choose|i: int|
                0 <= i < report.languages.len() && (#[trigger] report.languages@[i]).status
                    == HealthStatus::Ready;
            assert(r.languages@[i] == report.languages[i]);
        }
    }
}

/// Why the parameters of a health request are refused.
#[derive(PartialEq, Eq, Structural, Clone, Copy, Debug)]
pub enum HealthParamError {
    /// An `action` other than `restart`.
    InvalidAction,
    /// `restart` without a `language`.
    RestartWithoutLanguage,
}

pub open spec fn health_param_error_text(e: HealthParamError) -> Seq<char> {
    match e {
        HealthParamError::InvalidAction => "invalid `action`: must be 'restart'"@,
        HealthParamError::RestartWithoutLanguage => "health action='restart' requires 'language' to be set"@,
    }
}

impl HealthParamError {
    /// The message of the invalid-parameters error.
    pub fn message(&self) -> (s: String)
        ensures
            s@ == health_param_error_text(*self),
    {
        match self {
            HealthParamError::InvalidAction => string_of("invalid `action`: must be 'restart'"),
            HealthParamError::RestartWithoutLanguage => string_of(
                "health action='restart' requires 'language' to be set",
            ),
        }
    }
}

/// What a health request asks for before the report: `Ok(Some(language))`
/// to restart that language's server first, `Ok(None)` for the report
/// alone. Any action but `restart` is refused, and so is `restart` without
/// a language.
pub fn health_request(action: &Option<String>, language: &Option<String>) -> (r: Result<
    Option<String>,
    HealthParamError,
>)
    ensures
        match action {
            None => r == Ok::<Option<String>, HealthParamError>(None),
            Some(a) => if a@ != "restart"@ {
                r == Err::<Option<String>, HealthParamError>(HealthParamError::InvalidAction)
            } else {
                match language {
                    None => r == Err::<Option<String>, HealthParamError>(
                        HealthParamError::RestartWithoutLanguage,
                    ),
                    Some(l) => r matches Ok(Some(x)) && x@ == l@,
                }
            },
        },
{
    match action {
        None => Ok(None),
        Some(a) => {
            if !str_eq(a.as_str(), "restart") {
                return Err(HealthParamError::InvalidAction);
            }
            match language {
                None => Err(HealthParamError::RestartWithoutLanguage),
                Some(l) => Ok(Some(l.clone())),
            }
        },
    }
}

/// How one step of a readiness probe ended.
#[derive(PartialEq, Eq, Structural, Clone, Copy, Debug)]
pub enum ProbeStep {
    /// The server answered within the probe's time budget.
    Answered,
    /// The server answered with an error.
    Failed,
    /// The server did not answer within the time budget.
    TimedOut,
}

/// The verdict of a readiness probe, `(navigable, call_hierarchy_verified)`:
/// the server must answer a go-to-definition request; when its capabilities
/// claim call-hierarchy support it must also answer a call-hierarchy request
/// (`hierarchy`, asked only then), and that answer verifies call hierarchy.
pub open spec fn spec_probe_verdict(
    definition: ProbeStep,
    supports_call_hierarchy: Option<bool>,
    hierarchy: Option<ProbeStep>,
) -> (bool, bool) {
    if definition != ProbeStep::Answered {
        (false, false)
    } else if supports_call_hierarchy == Some(true) {
        if hierarchy == Some(ProbeStep::Answered) {
            (true, true)
        } else {
            (false, false)
        }
    } else {
        (true, false)
    }
}

/// A probe proves a server navigable exactly when its go-to-definition step
/// answered and, where the server claims call-hierarchy support, the
/// hierarchy step answered too; the call hierarchy counts as verified only
/// when it was asked and answered, and only for a navigable server.
pub proof fn law_probe_verdict_navigable(
    definition: ProbeStep,
    supports_call_hierarchy: Option<bool>,
    hierarchy: Option<ProbeStep>,
)
    ensures
        ({
            let v = spec_probe_verdict(definition, supports_call_hierarchy, hierarchy);
            &&& v.0 <==> (definition == ProbeStep::Answered && (supports_call_hierarchy != Some(true)
                || hierarchy == Some(ProbeStep::Answered)))
            &&& v.1 <==> (definition == ProbeStep::Answered && supports_call_hierarchy == Some(true)
                && hierarchy == Some(ProbeStep::Answered))
            &&& v.1 ==> v.0
            &&& (definition == ProbeStep::Answered && supports_call_hierarchy != Some(true) ==> v
                == (true, false))
        }),
{
}

/// Whether the probe goes on to ask for the call hierarchy.
pub fn probe_asks_call_hierarchy(definition: ProbeStep, supports_call_hierarchy: Option<bool>) -> (r:
    bool)
    ensures
        r == (definition == ProbeStep::Answered && supports_call_hierarchy == Some(true)),
{
    definition == ProbeStep::Answered && supports_call_hierarchy == Some(true)
}

/// The verdict of a readiness probe from its steps.
pub fn probe_verdict(
    definition: ProbeStep,
    supports_call_hierarchy: Option<bool>,
    hierarchy: Option<ProbeStep>,
) -> (r: (bool, bool))
    ensures
        r == spec_probe_verdict(definition, supports_call_hierarchy, hierarchy),
{
    if definition != ProbeStep::Answered {
        (false, false)
    } else if supports_call_hierarchy == Some(true) {
        if hierarchy == Some(ProbeStep::Answered) {
            (true, true)
        } else {
            (false, false)
        }
    } else {
        (true, false)
    }
}

} // verus!
