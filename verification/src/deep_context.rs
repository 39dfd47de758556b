//! Decisions of the deep-context tool: which dependencies are kept, how the
//! server's answers combine, and the text answer.

use vstd::prelude::*;
use crate::bfs::passes_filter;
use crate::paths::{is_source_file, is_workspace_file};
use crate::reason::DegradedReason;
use crate::text::{decimal, join_seqs, join_strings, push_decimal, push_str, string_of, views};

verus! {

/// A symbol that the inspected symbol calls.
pub struct DeepContextDependency {
    pub semantic_path: String,
    pub signature: String,
    pub file: String,
    pub line: usize,
}

/// The default number of dependencies listed.
pub fn default_max_dependencies() -> (r: u32)
    ensures
        r == 50,
{
    50
}

/// The dependencies collected so far, at most `max` of them, none twice.
pub struct DependencyCollector {
    pub deps: Vec<DeepContextDependency>,
    pub max: u32,
    pub project_only: bool,
    pub truncated: bool,
}

impl DependencyCollector {
    /// No two dependencies share a qualified path, there are at most `max`,
    /// and with `project_only` all lie in workspace source files.
    pub open spec fn wf(&self) -> bool {
        &&& self.deps.len() <= self.max
        &&& forall|i: int, j: int|
            0 <= i < j < self.deps.len() ==> self.deps[i].semantic_path@
                != self.deps[j].semantic_path@
        &&& forall|i: int|
            0 <= i < self.deps.len() ==> passes_filter(
                self.project_only,
                (#[trigger] self.deps[i]).file@,
            )
    }

    pub fn new(max: u32, project_only: bool) -> (r: DependencyCollector)
        ensures
            r.wf(),
            r.deps.len() == 0,
            r.max == max,
            r.project_only == project_only,
            !r.truncated,
    {
        DependencyCollector { deps: Vec::new(), max, project_only, truncated: false }
    }

    /// Whether another dependency may still be added; when not, the list is
    /// marked truncated.
    pub fn has_room(&mut self) -> (r: bool)
        requires
            old(self).wf(),
        ensures
            final(self).wf(),
            final(self).deps@ == old(self).deps@,
            final(self).max == old(self).max,
            final(self).project_only == old(self).project_only,
            r == (old(self).deps.len() < old(self).max),
            final(self).truncated == (old(self).truncated || !r),
    {
        if self.deps.len() >= self.max as usize {
            self.truncated = true;
            false
        } else {
            true
        }
    }

    /// Whether a dependency in `file` is kept at all.
    pub fn accepts_file(&self, file: &str) -> (r: bool)
        ensures
            r == passes_filter(self.project_only, file@),
    {
        !self.project_only || (is_source_file(file) && is_workspace_file(file))
    }

    /// Adds a dependency unless its qualified path is already listed, its
    /// file is not kept, or the list is full; says whether it was added.
    pub fn add(&mut self, semantic_path: String, signature: String, file: String, line: usize) -> (r:
        bool)
        requires
            old(self).wf(),
        ensures
            final(self).wf(),
            final(self).max == old(self).max,
            final(self).project_only == old(self).project_only,
            final(self).truncated == old(self).truncated,
            r == (old(self).deps.len() < old(self).max && passes_filter(
                old(self).project_only,
                file@,
            ) && forall|i: int|
                0 <= i < old(self).deps.len() ==> (#[trigger] old(self).deps[i]).semantic_path@
                    != semantic_path@),
            r ==> final(self).deps@ == old(self).deps@.push(
                DeepContextDependency { semantic_path, signature, file, line },
            ),
            !r ==> final(self).deps@ == old(self).deps@,
    {
        if self.deps.len() >= self.max as usize {
            return false;
        }
        if !self.accepts_file(file.as_str()) {
            return false;
        }
        let mut i: usize = 0;
        while i < self.deps.len()
            invariant
                i <= self.deps.len(),
                *self == *old(self),
                self.wf(),
                self.deps.len() < self.max,
                passes_filter(self.project_only, file@),
                forall|j: int| 0 <= j < i ==> (#[trigger] self.deps[j]).semantic_path@ != semantic_path@,
            decreases self.deps.len() - i,
        {
            if self.deps[i].semantic_path.eq(&semantic_path) {
                return false;
            }
            i = i + 1;
        }
        let ghost before = self.deps@;
        self.deps.push(DeepContextDependency { semantic_path, signature, file, line });
        proof {
            assert forall|a: int, b: int|
                0 <= a < b < self.deps.len() implies self.deps[a].semantic_path@
                != self.deps[b].semantic_path@ by {
                if b == self.deps.len() - 1 {
                    assert(self.deps[a] == before[a]);
                }
            }
            assert forall|a: int| 0 <= a < self.deps.len() implies passes_filter(
                self.project_only,
                (#[trigger] self.deps[a]).file@,
            ) by {
                if a < before.len() {
                    assert(self.deps[a] == before[a]);
                }
            }
        }
        true
    }
}

/// The signature shown for a callee: its detail, else its name.
pub fn callee_signature(detail: &Option<String>, name: &String) -> (r: String)
    ensures
        r@ == (match detail {
            Some(d) => d@,
            None => name@,
        }),
{
    match detail {
        Some(d) => d.clone(),
        None => name.clone(),
    }
}

/// Which way the dependencies were resolved.
#[derive(PartialEq, Eq, Structural, Clone, Copy, Debug)]
pub enum DependencySource {
    /// The server's outgoing calls, first try; `ok` when they were fetched.
    Outgoing { ok: bool },
    /// The server resolved the symbol but reported no call hierarchy.
    WarmEmpty,
    /// The server's outgoing calls after a warm-up retry.
    RetryOutgoing { ok: bool },
    /// Text search over the symbol's body; `after_lsp` when the server had
    /// answered before.
    Grep { after_lsp: bool },
}

/// Degradation of the dependency list and whether the server contributed.
pub open spec fn spec_dependency_resolution(s: DependencySource) -> (bool, Option<DegradedReason>, bool) {
    match s {
        DependencySource::Outgoing { ok } => if ok {
            (false, None, true)
        } else {
            (true, Some(DegradedReason::LspErrorGrepFallback), false)
        },
        DependencySource::WarmEmpty => (false, None, true),
        DependencySource::RetryOutgoing { ok } => if ok {
            (false, None, true)
        } else {
            (true, Some(DegradedReason::LspErrorGrepFallback), true)
        },
        DependencySource::Grep { after_lsp } => (
            true,
            Some(DegradedReason::GrepFallbackDependencies),
            after_lsp,
        ),
    }
}

/// Degradation of the dependency list and whether the server contributed.
pub fn dependency_resolution(s: DependencySource) -> (r: (bool, Option<DegradedReason>, bool))
    ensures
        r == spec_dependency_resolution(s),
{
    match s {
        DependencySource::Outgoing { ok } => if ok {
            (false, None, true)
        } else {
            (true, Some(DegradedReason::LspErrorGrepFallback), false)
        },
        DependencySource::WarmEmpty => (false, None, true),
        DependencySource::RetryOutgoing { ok } => if ok {
            (false, None, true)
        } else {
            (true, Some(DegradedReason::LspErrorGrepFallback), true)
        },
        DependencySource::Grep { after_lsp } => (
            true,
            Some(DegradedReason::GrepFallbackDependencies),
            after_lsp,
        ),
    }
}

/// A dependency list is undegraded exactly when the server delivered it: its
/// outgoing calls were fetched, or it resolved the symbol and reported an
/// empty hierarchy. A degraded list always names its reason, and a list from
/// the text search is always marked as such.
pub proof fn law_dependency_resolution_degradation(s: DependencySource)
    ensures
        ({
            let r = spec_dependency_resolution(s);
            &&& !r.0 <==> (s == DependencySource::WarmEmpty || s == (DependencySource::Outgoing {
                ok: true,
            }) || s == (DependencySource::RetryOutgoing { ok: true }))
            &&& r.0 <==> r.1 is Some
            &&& (s is Grep ==> r.1 == Some(DegradedReason::GrepFallbackDependencies))
            &&& (!r.0 ==> r.2)
        }),
{
}

/// How the server answered a request to prepare the call hierarchy.
#[derive(PartialEq, Eq, Structural, Clone, Copy, Debug)]
pub enum PrepareAnswer {
    /// At least one item.
    Items,
    /// No items.
    Empty,
    /// An error, or no server.
    Failed,
}

/// Where the resolution of the dependencies stands.
#[derive(PartialEq, Eq, Structural, Clone, Copy, Debug)]
pub enum DependencyStep {
    /// Waiting for the first answer to the prepare request.
    Preparing,
    /// The hierarchy was empty: waiting to learn whether the server resolves
    /// the symbol's definition.
    ProbingDefinition,
    /// The server looked cold: waiting for the second answer to the prepare
    /// request, asked after a short wait.
    Retrying,
    /// Waiting for the outgoing calls of the first item; `retry` after the
    /// warm-up retry.
    FetchingOutgoing { retry: bool },
    /// Waiting for the text-search fallback; `after_lsp` when the server had
    /// answered before.
    Searching { after_lsp: bool },
    /// Resolved, and how.
    Done(DependencySource),
}

/// What happened since the last step.
#[derive(PartialEq, Eq, Structural, Clone, Copy, Debug)]
pub enum DependencyEvent {
    Prepared(PrepareAnswer),
    DefinitionProbed { resolved: bool },
    OutgoingFetched { ok: bool },
    Searched,
}

/// What to do next.
#[derive(PartialEq, Eq, Structural, Clone, Copy, Debug)]
pub enum DependencyAction {
    /// Ask the server to prepare the call hierarchy.
    PrepareCallHierarchy,
    /// Ask the server for the symbol's definition.
    ProbeDefinition,
    /// Wait a second, then ask to prepare the call hierarchy again.
    WaitThenPrepare,
    /// Fetch the outgoing calls of the first item and add them.
    FetchOutgoing,
    /// Resolve the symbol body's call candidates by text search and add them.
    SearchCandidates,
    /// Stop: the dependencies were resolved this way.
    Finish(DependencySource),
}

/// The action each step waits on.
pub open spec fn pending_action(s: DependencyStep) -> DependencyAction {
    match s {
        DependencyStep::Preparing => DependencyAction::PrepareCallHierarchy,
        DependencyStep::ProbingDefinition => DependencyAction::ProbeDefinition,
        DependencyStep::Retrying => DependencyAction::WaitThenPrepare,
        DependencyStep::FetchingOutgoing { .. } => DependencyAction::FetchOutgoing,
        DependencyStep::Searching { .. } => DependencyAction::SearchCandidates,
        DependencyStep::Done(src) => DependencyAction::Finish(src),
    }
}

/// The step after `event` in step `s`: items lead to the outgoing calls; an
/// empty hierarchy to a definition probe, which, when the server resolves
/// the symbol, ends with no dependencies, and otherwise to one retry; an
/// error, or an empty or failed retry, to the text search. An event that the
/// step does not wait on leaves it as it is.
pub open spec fn spec_dependency_step(s: DependencyStep, event: DependencyEvent) -> DependencyStep {
    match (s, event) {
        (DependencyStep::Preparing, DependencyEvent::Prepared(a)) => match a {
            PrepareAnswer::Items => DependencyStep::FetchingOutgoing { retry: false },
            PrepareAnswer::Empty => DependencyStep::ProbingDefinition,
            PrepareAnswer::Failed => DependencyStep::Searching { after_lsp: false },
        },
        (DependencyStep::ProbingDefinition, DependencyEvent::DefinitionProbed { resolved }) => if resolved {
            DependencyStep::Done(DependencySource::WarmEmpty)
        } else {
            DependencyStep::Retrying
        },
        (DependencyStep::Retrying, DependencyEvent::Prepared(a)) => if a == PrepareAnswer::Items {
            DependencyStep::FetchingOutgoing { retry: true }
        } else {
            DependencyStep::Searching { after_lsp: true }
        },
        (DependencyStep::FetchingOutgoing { retry }, DependencyEvent::OutgoingFetched { ok }) => if retry {
            DependencyStep::Done(DependencySource::RetryOutgoing { ok })
        } else {
            DependencyStep::Done(DependencySource::Outgoing { ok })
        },
        (DependencyStep::Searching { after_lsp }, DependencyEvent::Searched) => DependencyStep::Done(
            DependencySource::Grep { after_lsp },
        ),
        _ => s,
    }
}

/// The next step of the resolution and the action it waits on.
pub fn next_dependency_step(s: DependencyStep, event: DependencyEvent) -> (r: (
    DependencyStep,
    DependencyAction,
))
    ensures
        r.0 == spec_dependency_step(s, event),
        r.1 == pending_action(r.0),
{
    let n = match (s, event) {
        (DependencyStep::Preparing, DependencyEvent::Prepared(a)) => match a {
            PrepareAnswer::Items => DependencyStep::FetchingOutgoing { retry: false },
            PrepareAnswer::Empty => DependencyStep::ProbingDefinition,
            PrepareAnswer::Failed => DependencyStep::Searching { after_lsp: false },
        },
        (DependencyStep::ProbingDefinition, DependencyEvent::DefinitionProbed { resolved }) => if resolved {
            DependencyStep::Done(DependencySource::WarmEmpty)
        } else {
            DependencyStep::Retrying
        },
        (DependencyStep::Retrying, DependencyEvent::Prepared(a)) => if a == PrepareAnswer::Items {
            DependencyStep::FetchingOutgoing { retry: true }
        } else {
            DependencyStep::Searching { after_lsp: true }
        },
        (DependencyStep::FetchingOutgoing { retry }, DependencyEvent::OutgoingFetched { ok }) => if retry {
            DependencyStep::Done(DependencySource::RetryOutgoing { ok })
        } else {
            DependencyStep::Done(DependencySource::Outgoing { ok })
        },
        (DependencyStep::Searching { after_lsp }, DependencyEvent::Searched) => DependencyStep::Done(
            DependencySource::Grep { after_lsp },
        ),
        _ => s,
    };
    let a = match n {
        DependencyStep::Preparing => DependencyAction::PrepareCallHierarchy,
        DependencyStep::ProbingDefinition => DependencyAction::ProbeDefinition,
        DependencyStep::Retrying => DependencyAction::WaitThenPrepare,
        DependencyStep::FetchingOutgoing { .. } => DependencyAction::FetchOutgoing,
        DependencyStep::Searching { .. } => DependencyAction::SearchCandidates,
        DependencyStep::Done(src) => DependencyAction::Finish(src),
    };
    (n, a)
}

/// The outcome of the resolution for the server's answers: a resolved
/// definition after an empty hierarchy confirms zero dependencies,
/// undegraded; an empty retry ends in the text search, degraded; a retry
/// that finds items fetches their outgoing calls, undegraded when they come;
/// an error goes straight to the text search; and a finished resolution
/// stays finished.
pub proof fn law_dependency_steps(ok: bool, a: PrepareAnswer, src: DependencySource, e: DependencyEvent)
    ensures
        ({
            let s = spec_dependency_step(
                spec_dependency_step(DependencyStep::Preparing, DependencyEvent::Prepared(PrepareAnswer::Empty)),
                DependencyEvent::DefinitionProbed { resolved: true },
            );
            &&& s == DependencyStep::Done(DependencySource::WarmEmpty)
            &&& spec_dependency_resolution(DependencySource::WarmEmpty) == (false, None::<DegradedReason>, true)
        }),
        ({
            let s = spec_dependency_step(
                spec_dependency_step(
                    spec_dependency_step(DependencyStep::Preparing, DependencyEvent::Prepared(PrepareAnswer::Empty)),
                    DependencyEvent::DefinitionProbed { resolved: false },
                ),
                DependencyEvent::Prepared(PrepareAnswer::Empty),
            );
            &&& s == (DependencyStep::Searching { after_lsp: true })
            &&& spec_dependency_step(s, DependencyEvent::Searched) == DependencyStep::Done(
                DependencySource::Grep { after_lsp: true },
            )
            &&& spec_dependency_resolution(DependencySource::Grep { after_lsp: true }) == (
                true,
                Some(DegradedReason::GrepFallbackDependencies),
                true,
            )
        }),
        ({
            let s = spec_dependency_step(
                spec_dependency_step(
                    spec_dependency_step(DependencyStep::Preparing, DependencyEvent::Prepared(PrepareAnswer::Empty)),
                    DependencyEvent::DefinitionProbed { resolved: false },
                ),
                DependencyEvent::Prepared(PrepareAnswer::Items),
            );
            &&& s == (DependencyStep::FetchingOutgoing { retry: true })
            &&& spec_dependency_step(s, DependencyEvent::OutgoingFetched { ok: true })
                == DependencyStep::Done(DependencySource::RetryOutgoing { ok: true })
            &&& spec_dependency_resolution(DependencySource::RetryOutgoing { ok: true }) == (false, None::<DegradedReason>, true)
        }),
        spec_dependency_step(
            spec_dependency_step(DependencyStep::Preparing, DependencyEvent::Prepared(PrepareAnswer::Items)),
            DependencyEvent::OutgoingFetched { ok },
        ) == DependencyStep::Done(DependencySource::Outgoing { ok }),
        spec_dependency_step(
            spec_dependency_step(DependencyStep::Preparing, DependencyEvent::Prepared(PrepareAnswer::Failed)),
            DependencyEvent::Searched,
        ) == DependencyStep::Done(DependencySource::Grep { after_lsp: false }),
        spec_dependency_step(DependencyStep::Done(src), e) == DependencyStep::Done(src),
{
}

/// The dependency resolution falls back to the text search whenever the
/// server yields no call-hierarchy items: on a failed first prepare, and on
/// any retried prepare that does not return items; items, first or retried,
/// lead to the outgoing calls. An empty hierarchy is accepted as final (no
/// dependencies, undegraded) only after the server resolved the symbol's
/// definition.
pub proof fn law_dependency_search_without_items(s: DependencyStep, e: DependencyEvent, a: PrepareAnswer)
    ensures
        a != PrepareAnswer::Items ==> spec_dependency_step(
            DependencyStep::Retrying,
            DependencyEvent::Prepared(a),
        ) == (DependencyStep::Searching { after_lsp: true }),
        spec_dependency_step(DependencyStep::Preparing, DependencyEvent::Prepared(PrepareAnswer::Failed))
            == (DependencyStep::Searching { after_lsp: false }),
        spec_dependency_step(DependencyStep::Preparing, DependencyEvent::Prepared(PrepareAnswer::Items))
            == (DependencyStep::FetchingOutgoing { retry: false }),
        spec_dependency_step(DependencyStep::Retrying, DependencyEvent::Prepared(PrepareAnswer::Items))
            == (DependencyStep::FetchingOutgoing { retry: true }),
        spec_dependency_step(s, e) == DependencyStep::Done(DependencySource::WarmEmpty) && s
            != DependencyStep::Done(DependencySource::WarmEmpty) ==> s == DependencyStep::ProbingDefinition
            && e == (DependencyEvent::DefinitionProbed { resolved: true }),
{
}

/// How the dependencies were obtained, as reported.
pub open spec fn spec_deep_resolution_strategy(
    degraded: bool,
    used_lsp: bool,
    reason: Option<DegradedReason>,
) -> Seq<char> {
    if !degraded && used_lsp {
        "lsp_call_hierarchy"@
    } else if degraded {
        match reason {
            Some(DegradedReason::NoLsp) => "treesitter_direct"@,
            Some(DegradedReason::GrepFallbackDependencies) => "grep_fallback"@,
            _ => "treesitter_fallback"@,
        }
    } else {
        "treesitter_direct"@
    }
}

/// How the dependencies were obtained, as reported.
pub fn deep_resolution_strategy(degraded: bool, used_lsp: bool, reason: Option<DegradedReason>) -> (s:
    &'static str)
    ensures
        s@ == spec_deep_resolution_strategy(degraded, used_lsp, reason),
{
    if !degraded && used_lsp {
        "lsp_call_hierarchy"
    } else if degraded {
        match reason {
            Some(DegradedReason::NoLsp) => "treesitter_direct",
            Some(DegradedReason::GrepFallbackDependencies) => "grep_fallback",
            _ => "treesitter_fallback",
        }
    } else {
        "treesitter_direct"
    }
}

/// One line of the dependency block.
pub open spec fn dependency_line(d: DeepContextDependency) -> Seq<char> {
    "  "@ + d.signature@ + " ("@ + d.file@ + ":L"@ + decimal(d.line as nat) + ")"@
}

/// The dependency lines, each on a line of its own after a newline.
pub open spec fn spec_dep_block(deps: Seq<DeepContextDependency>) -> Seq<char> {
    if deps.len() == 0 {
        Seq::empty()
    } else {
        "\n"@ + join_seqs(Seq::new(deps.len(), |i: int| dependency_line(deps[i])), "\n"@)
    }
}

/// The import lines under an `Imports:` heading.
pub open spec fn spec_import_block(imports: Seq<Seq<char>>) -> Seq<char> {
    if imports.len() == 0 {
        Seq::empty()
    } else {
        "\nImports:\n"@ + join_seqs(imports, "\n"@) + "\n"@
    }
}

/// The text answer of the deep-context tool: the notice when degraded, the
/// dependency count and lines, the imports, the symbol's source and the
/// elapsed time; `notice` is the degradation notice for the answer's reason.
pub open spec fn spec_deep_context_text(
    degraded: bool,
    notice: Seq<char>,
    deps: Seq<DeepContextDependency>,
    imports: Seq<Seq<char>>,
    content: Seq<char>,
    duration_ms: u64,
) -> Seq<char> {
    let body = decimal(deps.len()) + " dependencies loaded"@ + spec_dep_block(deps)
        + spec_import_block(imports) + "\n\n"@ + content + "\n[completed in "@ + decimal(
        duration_ms as nat,
    ) + "ms]"@;
    if degraded {
        notice + "\n\n"@ + body
    } else {
        body
    }
}

fn dep_block(deps: &Vec<DeepContextDependency>) -> (s: String)
    ensures
        s@ == spec_dep_block(deps@),
{
    if deps.len() == 0 {
        return String::new();
    }
    let mut lines: Vec<String> = Vec::new();
    let mut i: usize = 0;
    while i < deps.len()
        invariant
            i <= deps.len(),
            views(lines@) =~= Seq::new(i as nat, |k: int| dependency_line(deps@[k])),
        decreases deps.len() - i,
    {
        let d = &deps[i];
        let mut l = string_of("  ");
        push_str(&mut l, d.signature.as_str());
        push_str(&mut l, " (");
        push_str(&mut l, d.file.as_str());
        push_str(&mut l, ":L");
        push_decimal(&mut l, d.line as u64);
        push_str(&mut l, ")");
        let ghost before = lines@;
        lines.push(l);
        assert(views(lines@) =~= views(before).push(l@));
        i = i + 1;
    }
    let mut s = string_of("\n");
    push_str(&mut s, join_strings(&lines, "\n").as_str());
    s
}

fn import_block(imports: &Vec<String>) -> (s: String)
    ensures
        s@ == spec_import_block(views(imports@)),
{
    if imports.len() == 0 {
        return String::new();
    }
    let mut s = string_of("\nImports:\n");
    push_str(&mut s, join_strings(imports, "\n").as_str());
    push_str(&mut s, "\n");
    s
}

/// The text answer of the deep-context tool.
pub fn deep_context_text(
    degraded: bool,
    notice: &str,
    deps: &Vec<DeepContextDependency>,
    imports: &Vec<String>,
    content: &str,
    duration_ms: u64,
) -> (s: String)
    ensures
        s@ == spec_deep_context_text(degraded, notice@, deps@, views(imports@), content@, duration_ms),
{
    let db = dep_block(deps);
    let ib = import_block(imports);
    let mut s = String::new();
    if degraded {
        push_str(&mut s, notice);
        push_str(&mut s, "\n\n");
    }
    push_decimal(&mut s, deps.len() as u64);
    push_str(&mut s, " dependencies loaded");
    push_str(&mut s, db.as_str());
    push_str(&mut s, ib.as_str());
    push_str(&mut s, "\n\n");
    push_str(&mut s, content);
    push_str(&mut s, "\n[completed in ");
    push_decimal(&mut s, duration_ms);
    push_str(&mut s, "ms]");
    assert(s@ =~= spec_deep_context_text(
        degraded,
        notice@,
        deps@,
        views(imports@),
        content@,
        duration_ms,
    ));
    s
}

} // verus!
