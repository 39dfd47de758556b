//! Decisions of the callers/callees tool: limits, how the server's answer
//! and the text-search fallbacks combine, and the reported metadata.

use vstd::prelude::*;
use crate::bfs::{CallHierarchyBfs, ImpactReference};
use crate::reason::DegradedReason;
use crate::text::{decimal, join_seqs, join_strings, push_decimal, push_str, string_of, trim, trim_str, views};

verus! {

/// The clamped limits of one callers/callees request.
pub struct TraceLimits {
    pub max_depth: u32,
    pub max_references: u32,
    pub remaining_incoming: u32,
    pub remaining_outgoing: u32,
}

pub open spec fn clamp_spec(x: u32, lo: u32, hi: u32) -> u32 {
    if x < lo {
        lo
    } else if x > hi {
        hi
    } else {
        x
    }
}

/// Depth clamped to 1..=5, references clamped to 1..=500, and the reference
/// budget split between callers and callees, the odd one to callers.
pub fn trace_limits(max_depth: u32, max_references: u32) -> (r: TraceLimits)
    ensures
        r.max_depth == clamp_spec(max_depth, 1, 5),
        r.max_references == clamp_spec(max_references, 1, 500),
        r.remaining_incoming == r.max_references / 2 + r.max_references % 2,
        r.remaining_outgoing == r.max_references / 2,
{
    let d = if max_depth < 1 {
        1
    } else if max_depth > 5 {
        5
    } else {
        max_depth
    };
    let m = if max_references < 1 {
        1
    } else if max_references > 500 {
        500
    } else {
        max_references
    };
    let half = m / 2;
    TraceLimits {
        max_depth: d,
        max_references: m,
        remaining_incoming: half + m % 2,
        remaining_outgoing: half,
    }
}

/// The split of the reference budget hands out the whole budget, callers
/// getting the same as callees or one more.
pub proof fn law_budget_split(max_depth: u32, max_references: u32, r: TraceLimits)
    requires
        r.max_references == clamp_spec(max_references, 1, 500),
        r.remaining_incoming == r.max_references / 2 + r.max_references % 2,
        r.remaining_outgoing == r.max_references / 2,
    ensures
        r.remaining_incoming + r.remaining_outgoing == r.max_references,
        r.remaining_outgoing <= r.remaining_incoming <= r.remaining_outgoing + 1,
        1 <= r.max_references <= 500,
{
}

/// A callers/callees answer keeps the request's limits: with the clamped
/// limits and two traversals run with the split budgets, no reported
/// reference lies deeper than the depth limit, neither traversal reaches
/// deeper, and an undegraded answer reports exactly the traversals'
/// references, callers within their share of the budget and callees within
/// theirs.
pub proof fn law_trace_within_limits(
    max_depth: u32,
    max_references: u32,
    limits: TraceLimits,
    incoming_bfs: CallHierarchyBfs,
    outgoing_bfs: CallHierarchyBfs,
    outcome: PrepareOutcome,
    grep_in: Option<Seq<ImpactReference>>,
    grep_out: Option<Seq<ImpactReference>>,
)
    requires
        limits.max_depth == clamp_spec(max_depth, 1, 5),
        limits.max_references == clamp_spec(max_references, 1, 500),
        limits.remaining_incoming == limits.max_references / 2 + limits.max_references % 2,
        limits.remaining_outgoing == limits.max_references / 2,
        incoming_bfs.wf(),
        outgoing_bfs.wf(),
        incoming_bfs.max_depth == limits.max_depth,
        outgoing_bfs.max_depth == limits.max_depth,
        incoming_bfs.budget == limits.remaining_incoming,
        outgoing_bfs.budget == limits.remaining_outgoing,
        grep_in matches Some(g) ==> forall|k: int| 0 <= k < g.len() ==> (#[trigger] g[k]).depth == 0,
        grep_out matches Some(g) ==> forall|k: int| 0 <= k < g.len() ==> (#[trigger] g[k]).depth == 0,
    ensures
        1 <= limits.max_depth <= 5,
        1 <= limits.max_references <= 500,
        incoming_bfs.max_depth_reached <= limits.max_depth,
        outgoing_bfs.max_depth_reached <= limits.max_depth,
        ({
            let r = spec_resolve_trace(
                outcome,
                incoming_bfs.references@,
                outgoing_bfs.references@,
                grep_in,
                grep_out,
            );
            &&& r.0 matches Some(v) ==> forall|k: int|
                0 <= k < v.len() ==> (#[trigger] v[k]).depth < limits.max_depth
            &&& r.1 matches Some(v) ==> forall|k: int|
                0 <= k < v.len() ==> (#[trigger] v[k]).depth < limits.max_depth
            &&& !r.2 ==> {
                &&& r.0 == Some(incoming_bfs.references@)
                &&& r.1 == Some(outgoing_bfs.references@)
                &&& incoming_bfs.references.len() <= limits.max_references
                    - limits.max_references / 2
                &&& outgoing_bfs.references.len() <= limits.max_references / 2
            }
        }),
{
    crate::bfs::law_bfs_invariants(incoming_bfs);
    crate::bfs::law_bfs_invariants(outgoing_bfs);
    let r = spec_resolve_trace(
        outcome,
        incoming_bfs.references@,
        outgoing_bfs.references@,
        grep_in,
        grep_out,
    );
    assert(limits.max_references - limits.max_references / 2 == limits.max_references / 2
        + limits.max_references % 2);
    if let Some(v) = r.0 {
        assert forall|k: int| 0 <= k < v.len() implies (#[trigger] v[k]).depth < limits.max_depth by {
            if grep_in is Some && v == grep_in->0 {
            } else {
                assert(v == incoming_bfs.references@);
                assert(incoming_bfs.references@[k].depth < incoming_bfs.max_depth);
            }
        }
    }
    if let Some(v) = r.1 {
        assert forall|k: int| 0 <= k < v.len() implies (#[trigger] v[k]).depth < limits.max_depth by {
            if grep_out is Some && v == grep_out->0 {
            } else {
                assert(v == outgoing_bfs.references@);
                assert(outgoing_bfs.references@[k].depth < outgoing_bfs.max_depth);
            }
        }
    }
}

/// Takes the text-search results: each found list replaces the
/// corresponding one, and when either was found `fallback_reason`, if given,
/// becomes the degraded reason.
pub fn process_grep_fallback_results(
    grep_in: Option<Vec<ImpactReference>>,
    grep_out: Option<Vec<ImpactReference>>,
    incoming: &mut Option<Vec<ImpactReference>>,
    outgoing: &mut Option<Vec<ImpactReference>>,
    degraded_reason: &mut Option<DegradedReason>,
    fallback_reason: Option<DegradedReason>,
)
    ensures
        *final(incoming) == (if grep_in is Some {
            grep_in
        } else {
            *old(incoming)
        }),
        *final(outgoing) == (if grep_out is Some {
            grep_out
        } else {
            *old(outgoing)
        }),
        *final(degraded_reason) == (if (grep_in is Some || grep_out is Some)
            && fallback_reason is Some {
            fallback_reason
        } else {
            *old(degraded_reason)
        }),
{
    let mut found = false;
    if let Some(refs) = grep_in {
        *incoming = Some(refs);
        found = true;
    }
    if let Some(refs) = grep_out {
        *outgoing = Some(refs);
        found = true;
    }
    if found {
        if let Some(reason) = fallback_reason {
            *degraded_reason = Some(reason);
        }
    }
}

/// How the server answered the request to prepare the call hierarchy.
#[derive(PartialEq, Eq, Structural, Clone, Copy, Debug)]
pub enum PrepareOutcome {
    /// At least one item: the hierarchy was traversed.
    Items,
    /// No items, but the server resolves the symbol's definition.
    EmptyWarm,
    /// No items, and the server does not resolve the definition either.
    EmptyCold,
    /// No server, or no call-hierarchy support.
    Unavailable,
    /// The server timed out.
    Timeout,
    /// Any other server error.
    Failed,
}

/// The combined result of the server and the fallbacks.
pub struct TraceResolution {
    pub incoming: Option<Vec<ImpactReference>>,
    pub outgoing: Option<Vec<ImpactReference>>,
    pub degraded: bool,
    pub degraded_reason: Option<DegradedReason>,
    pub used_lsp: bool,
}

/// Whether the text-search fallbacks are run: after a traversal only when it
/// found neither callers nor callees, otherwise always.
pub open spec fn spec_trace_needs_grep(outcome: PrepareOutcome, bfs_empty: bool) -> bool {
    outcome != PrepareOutcome::Items || bfs_empty
}

/// Whether the text-search fallbacks are run.
pub fn trace_needs_grep(outcome: PrepareOutcome, bfs_in_empty: bool, bfs_out_empty: bool) -> (r:
    bool)
    ensures
        r == spec_trace_needs_grep(outcome, bfs_in_empty && bfs_out_empty),
{
    outcome != PrepareOutcome::Items || (bfs_in_empty && bfs_out_empty)
}

/// The contents of an optional list of references.
pub open spec fn opt_view(o: Option<Vec<ImpactReference>>) -> Option<Seq<ImpactReference>> {
    match o {
        Some(v) => Some(v@),
        None => None,
    }
}

pub open spec fn or_found(found: Option<Seq<ImpactReference>>, otherwise: Option<
    Seq<ImpactReference>,
>) -> Option<Seq<ImpactReference>> {
    if found is Some {
        found
    } else {
        otherwise
    }
}

/// The combined result for each outcome of the server, given the traversal's
/// references (used after `Items`) and the text-search results (used where
/// the fallbacks run).
pub open spec fn spec_resolve_trace(
    outcome: PrepareOutcome,
    bfs_in: Seq<ImpactReference>,
    bfs_out: Seq<ImpactReference>,
    grep_in: Option<Seq<ImpactReference>>,
    grep_out: Option<Seq<ImpactReference>>,
) -> (Option<Seq<ImpactReference>>, Option<Seq<ImpactReference>>, bool, Option<DegradedReason>, bool) {
    let found = grep_in is Some || grep_out is Some;
    match outcome {
        PrepareOutcome::Items => if bfs_in.len() == 0 && bfs_out.len() == 0 {
            (
                or_found(grep_in, Some(bfs_in)),
                or_found(grep_out, Some(bfs_out)),
                true,
                Some(DegradedReason::LspWarmupGrepFallback),
                true,
            )
        } else {
            (Some(bfs_in), Some(bfs_out), false, None, true)
        },
        PrepareOutcome::EmptyWarm => (
            or_found(grep_in, Some(Seq::empty())),
            or_found(grep_out, Some(Seq::empty())),
            true,
            Some(DegradedReason::LspWarmupGrepFallback),
            true,
        ),
        PrepareOutcome::EmptyCold => (
            grep_in,
            grep_out,
            true,
            Some(
                if found {
                    DegradedReason::LspWarmupGrepFallback
                } else {
                    DegradedReason::LspWarmupEmptyUnverified
                },
            ),
            true,
        ),
        PrepareOutcome::Unavailable => (
            grep_in,
            grep_out,
            true,
            Some(
                if found {
                    DegradedReason::NoLspGrepFallback
                } else {
                    DegradedReason::NoLsp
                },
            ),
            false,
        ),
        PrepareOutcome::Timeout => (
            grep_in,
            grep_out,
            true,
            Some(DegradedReason::LspTimeoutGrepFallback),
            false,
        ),
        PrepareOutcome::Failed => (
            grep_in,
            grep_out,
            true,
            Some(DegradedReason::LspErrorGrepFallback),
            false,
        ),
    }
}

/// Combines the server's outcome, the traversal's references and the
/// text-search results into the callers, callees and degradation of the
/// answer.
pub fn resolve_trace(
    outcome: PrepareOutcome,
    bfs_in: Vec<ImpactReference>,
    bfs_out: Vec<ImpactReference>,
    grep_in: Option<Vec<ImpactReference>>,
    grep_out: Option<Vec<ImpactReference>>,
) -> (r: TraceResolution)
    ensures
        (opt_view(r.incoming), opt_view(r.outgoing), r.degraded, r.degraded_reason, r.used_lsp)
            == spec_resolve_trace(outcome, bfs_in@, bfs_out@, opt_view(grep_in), opt_view(grep_out)),
{
    let mut incoming: Option<Vec<ImpactReference>> = None;
    let mut outgoing: Option<Vec<ImpactReference>> = None;
    let mut degraded = true;
    let mut degraded_reason = Some(DegradedReason::NoLsp);
    let mut used_lsp = false;
    match outcome {
        PrepareOutcome::Items => {
            used_lsp = true;
            degraded = false;
            degraded_reason = None;
            let both_empty = bfs_in.len() == 0 && bfs_out.len() == 0;
            incoming = Some(bfs_in);
            outgoing = Some(bfs_out);
            if both_empty {
                degraded = true;
                degraded_reason = Some(DegradedReason::LspWarmupGrepFallback);
                if grep_in.is_some() {
                    incoming = grep_in;
                }
                if grep_out.is_some() {
                    outgoing = grep_out;
                }
            }
        },
        PrepareOutcome::EmptyWarm => {
            used_lsp = true;
            degraded = true;
            degraded_reason = Some(DegradedReason::LspWarmupGrepFallback);
            incoming = match grep_in {
                Some(v) => Some(v),
                None => Some(Vec::new()),
            };
            outgoing = match grep_out {
                Some(v) => Some(v),
                None => Some(Vec::new()),
            };
        },
        PrepareOutcome::EmptyCold => {
            used_lsp = true;
            degraded = true;
            degraded_reason = Some(DegradedReason::LspWarmupEmptyUnverified);
            process_grep_fallback_results(
                grep_in,
                grep_out,
                &mut incoming,
                &mut outgoing,
                &mut degraded_reason,
                Some(DegradedReason::LspWarmupGrepFallback),
            );
        },
        PrepareOutcome::Unavailable => {
            process_grep_fallback_results(
                grep_in,
                grep_out,
                &mut incoming,
                &mut outgoing,
                &mut degraded_reason,
                Some(DegradedReason::NoLspGrepFallback),
            );
        },
        PrepareOutcome::Timeout => {
            degraded_reason = Some(DegradedReason::LspTimeoutGrepFallback);
            process_grep_fallback_results(
                grep_in,
                grep_out,
                &mut incoming,
                &mut outgoing,
                &mut degraded_reason,
                None,
            );
        },
        PrepareOutcome::Failed => {
            degraded = true;
            degraded_reason = Some(DegradedReason::LspErrorGrepFallback);
            process_grep_fallback_results(
                grep_in,
                grep_out,
                &mut incoming,
                &mut outgoing,
                &mut degraded_reason,
                None,
            );
        },
    }
    TraceResolution { incoming, outgoing, degraded, degraded_reason, used_lsp }
}

/// An answer is undegraded only when the server traversed the hierarchy and
/// found at least one caller or callee; then no reason is given.
pub proof fn law_trace_undegraded_only_from_traversal(
    outcome: PrepareOutcome,
    bfs_in: Seq<ImpactReference>,
    bfs_out: Seq<ImpactReference>,
    grep_in: Option<Seq<ImpactReference>>,
    grep_out: Option<Seq<ImpactReference>>,
)
    ensures
        ({
            let r = spec_resolve_trace(outcome, bfs_in, bfs_out, grep_in, grep_out);
            (!r.2 <==> (outcome == PrepareOutcome::Items && (bfs_in.len() > 0 || bfs_out.len()
                > 0))) && (!r.2 ==> r.3 is None) && (r.2 ==> r.3 is Some)
        }),
{
}

/// A callers/callees answer reports what was found and invents nothing:
/// wherever the text-search fallback runs (every outcome but a traversal
/// that found something), a list the search found is the list reported, in
/// each direction; a traversal that found something is reported as it is;
/// and every reported list is the search's, the traversal's, or empty.
pub proof fn law_trace_reports_found_references(
    outcome: PrepareOutcome,
    bfs_in: Seq<ImpactReference>,
    bfs_out: Seq<ImpactReference>,
    grep_in: Option<Seq<ImpactReference>>,
    grep_out: Option<Seq<ImpactReference>>,
)
    ensures
        ({
            let r = spec_resolve_trace(outcome, bfs_in, bfs_out, grep_in, grep_out);
            let searched = outcome != PrepareOutcome::Items || (bfs_in.len() == 0 && bfs_out.len()
                == 0);
            &&& searched == spec_trace_needs_grep(outcome, bfs_in.len() == 0 && bfs_out.len() == 0)
            &&& (searched && grep_in is Some ==> r.0 == grep_in)
            &&& (searched && grep_out is Some ==> r.1 == grep_out)
            &&& (!searched ==> r.0 == Some(bfs_in) && r.1 == Some(bfs_out))
            &&& (r.0 == grep_in || r.0 == Some(bfs_in) || r.0 == Some(Seq::<ImpactReference>::empty()))
            &&& (r.1 == grep_out || r.1 == Some(bfs_out) || r.1 == Some(Seq::<ImpactReference>::empty()))
        }),
{
}

/// A callers/callees answer says the server was used exactly when it
/// answered the prepare request (with items or with an empty hierarchy),
/// and a degraded answer names the failure it followed: a timeout, an error,
/// or a missing server.
pub proof fn law_trace_reason_follows_outcome(
    outcome: PrepareOutcome,
    bfs_in: Seq<ImpactReference>,
    bfs_out: Seq<ImpactReference>,
    grep_in: Option<Seq<ImpactReference>>,
    grep_out: Option<Seq<ImpactReference>>,
)
    ensures
        ({
            let r = spec_resolve_trace(outcome, bfs_in, bfs_out, grep_in, grep_out);
            &&& r.4 <==> (outcome == PrepareOutcome::Items || outcome == PrepareOutcome::EmptyWarm
                || outcome == PrepareOutcome::EmptyCold)
            &&& (outcome == PrepareOutcome::Timeout ==> r.3 == Some(
                DegradedReason::LspTimeoutGrepFallback,
            ))
            &&& (outcome == PrepareOutcome::Failed ==> r.3 == Some(
                DegradedReason::LspErrorGrepFallback,
            ))
            &&& (outcome == PrepareOutcome::Unavailable ==> (r.3 == Some(DegradedReason::NoLsp)
                <==> grep_in is None && grep_out is None))
        }),
{
}

/// How the answer was obtained, as reported.
pub open spec fn spec_resolution_strategy(
    degraded: bool,
    used_lsp: bool,
    reason: Option<DegradedReason>,
) -> Seq<char> {
    if !degraded && used_lsp {
        "lsp_call_hierarchy"@
    } else if degraded {
        match reason {
            Some(r) => if r == DegradedReason::LspWarmupGrepFallback || r
                == DegradedReason::LspTimeoutGrepFallback || r
                == DegradedReason::LspErrorGrepFallback || r == DegradedReason::NoLspGrepFallback {
                "grep_file_scoped"@
            } else {
                "treesitter_fallback"@
            },
            None => "treesitter_fallback"@,
        }
    } else {
        "treesitter_direct"@
    }
}

/// How the answer was obtained, as reported.
pub fn resolution_strategy(degraded: bool, used_lsp: bool, reason: Option<DegradedReason>) -> (s:
    &'static str)
    ensures
        s@ == spec_resolution_strategy(degraded, used_lsp, reason),
{
    if !degraded && used_lsp {
        "lsp_call_hierarchy"
    } else if degraded {
        match reason {
            Some(
                DegradedReason::LspWarmupGrepFallback
                | DegradedReason::LspTimeoutGrepFallback
                | DegradedReason::LspErrorGrepFallback
                | DegradedReason::NoLspGrepFallback,
            ) => "grep_file_scoped",
            _ => "treesitter_fallback",
        }
    } else {
        "treesitter_direct"
    }
}

/// Whether the reference budget was used up: the callers and callees
/// returned together reach the budget.
pub fn references_truncated(inc_count: usize, out_count: usize, max_references: u32) -> (r: bool)
    requires
        inc_count + out_count <= usize::MAX,
    ensures
        r == (max_references > 0 && inc_count + out_count >= max_references),
{
    let total: usize = inc_count + out_count;
    max_references > 0 && total >= max_references as usize
}

/// The hint given when the server confirmed that nothing calls the symbol.
pub fn zero_callers_hint(degraded: bool, incoming: &Option<Vec<ImpactReference>>) -> (r: Option<
    &'static str,
>)
    ensures
        r matches Some(h) ==> h@
            == "LSP confirmed zero incoming callers. This symbol may be an entry point, unused, or only called via dynamic dispatch/reflection."@,
        r is Some <==> (!degraded && (match incoming {
            Some(v) => v.len() == 0,
            None => false,
        })),
{
    match incoming {
        Some(v) => if !degraded && v.len() == 0 {
            Some(
                "LSP confirmed zero incoming callers. This symbol may be an entry point, unused, or only called via dynamic dispatch/reflection.",
            )
        } else {
            None
        },
        None => None,
    }
}

/// The lines listing one reference: where it is, then its trimmed snippet
/// when it has one.
pub open spec fn reference_lines(r: ImpactReference) -> Seq<Seq<char>> {
    let head = "  [depth="@ + decimal(r.depth as nat) + "] "@ + r.semantic_path@ + " ("@ + r.file@
        + ":L"@ + decimal(r.line as nat) + ")"@;
    if r.snippet@.len() == 0 {
        seq![head]
    } else {
        seq![head, "    > "@ + trim(r.snippet@)]
    }
}

pub open spec fn all_reference_lines(refs: Seq<ImpactReference>) -> Seq<Seq<char>>
    decreases refs.len(),
{
    if refs.len() == 0 {
        Seq::empty()
    } else {
        all_reference_lines(refs.drop_last()) + reference_lines(refs.last())
    }
}

pub open spec fn count_of(refs: Option<Seq<ImpactReference>>) -> nat {
    match refs {
        Some(v) => v.len(),
        None => 0,
    }
}

pub open spec fn listed(refs: Option<Seq<ImpactReference>>) -> Seq<Seq<char>> {
    match refs {
        Some(v) => all_reference_lines(v),
        None => Seq::empty(),
    }
}

/// The opening lines of the answer: the degradation notice with advice, or
/// what the server confirmed when nothing was found in a direction.
pub open spec fn trace_preamble(
    degraded: bool,
    notice: Seq<char>,
    symbol_name: Seq<char>,
    inc_count: nat,
    out_count: nat,
) -> Seq<Seq<char>> {
    if degraded {
        seq![
            notice,
            Seq::empty(),
            "   Common causes:"@,
            "   - Interface types without concrete implementations in source (JPA repositories)"@,
            "   - Annotation-driven dependency injection (Spring proxies at runtime)"@,
            "   - LSP still warming up (wait 30s, try again)"@,
            Seq::empty(),
            if symbol_name.len() == 0 {
                "   Workaround: Use search to find usages manually."@
            } else {
                "   Workaround: Use search(query=\""@ + symbol_name + "\") to find usages manually."@
            },
            "   Reference counts below are heuristic only:"@,
            Seq::empty(),
        ]
    } else if inc_count == 0 && out_count == 0 {
        seq!["LSP confirmed: zero callers/callees for this symbol."@]
    } else if inc_count == 0 {
        seq!["LSP confirmed: zero incoming callers (callees found below)."@]
    } else if out_count == 0 {
        seq!["LSP confirmed: zero outgoing callees (callers found below)."@]
    } else {
        Seq::empty()
    }
}

/// The text answer of the callers/callees tool.
pub open spec fn spec_trace_text(
    degraded: bool,
    notice: Seq<char>,
    symbol_name: Seq<char>,
    incoming: Option<Seq<ImpactReference>>,
    outgoing: Option<Seq<ImpactReference>>,
    duration_ms: u64,
) -> Seq<char> {
    let inc = count_of(incoming);
    let out = count_of(outgoing);
    join_seqs(
        trace_preamble(degraded, notice, symbol_name, inc, out) + seq![
            "Incoming references: "@ + decimal(inc),
        ] + listed(incoming) + seq!["Outgoing references: "@ + decimal(out)] + listed(outgoing)
            + seq!["[completed in "@ + decimal(duration_ms as nat) + "ms]"@],
        "\n"@,
    )
}

pub(crate) fn push_line(v: &mut Vec<String>, s: String)
    ensures
        views(final(v)@) == views(old(v)@).push(s@),
{
    let ghost before = v@;
    v.push(s);
    assert(views(v@) =~= views(before).push(s@));
}

pub(crate) fn push_reference_lines(lines: &mut Vec<String>, refs: &Option<Vec<ImpactReference>>)
    ensures
        views(final(lines)@) == views(old(lines)@) + listed(opt_view(*refs)),
{
    let ghost start = views(lines@);
    match refs {
        None => {
            assert(views(lines@) =~= start + listed(opt_view(*refs)));
        },
        Some(v) => {
            let mut i: usize = 0;
            while i < v.len()
                invariant
                    i <= v.len(),
                    views(lines@) == start + all_reference_lines(v@.take(i as int)),
                decreases v.len() - i,
            {
                let r = &v[i];
                let mut head = string_of("  [depth=");
                push_decimal(&mut head, r.depth as u64);
                push_str(&mut head, "] ");
                push_str(&mut head, r.semantic_path.as_str());
                push_str(&mut head, " (");
                push_str(&mut head, r.file.as_str());
                push_str(&mut head, ":L");
                push_decimal(&mut head, r.line as u64);
                push_str(&mut head, ")");
                let ghost before = views(lines@);
                push_line(lines, head);
                if !r.snippet.as_str().is_empty() {
                    let mut s = string_of("    > ");
                    push_str(&mut s, trim_str(r.snippet.as_str()).as_str());
                    push_line(lines, s);
                }
                proof {
                    assert(v@.take(i + 1).drop_last() =~= v@.take(i as int));
                    assert(v@.take(i + 1).last() == v@[i as int]);
                    assert(views(lines@) =~= before + reference_lines(v@[i as int]));
                }
                i = i + 1;
            }
            assert(v@.take(v.len() as int) =~= v@);
        },
    }
}

/// The text answer of the callers/callees tool: the opening lines, each
/// direction's count and references, and the elapsed time; `notice` is the
/// degradation notice for the answer's reason.
pub fn trace_text(
    degraded: bool,
    notice: &str,
    symbol_name: &str,
    incoming: &Option<Vec<ImpactReference>>,
    outgoing: &Option<Vec<ImpactReference>>,
    duration_ms: u64,
) -> (s: String)
    ensures
        s@ == spec_trace_text(
            degraded,
            notice@,
            symbol_name@,
            opt_view(*incoming),
            opt_view(*outgoing),
            duration_ms,
        ),
{
    let inc: usize = match incoming {
        Some(v) => v.len(),
        None => 0,
    };
    let out: usize = match outgoing {
        Some(v) => v.len(),
        None => 0,
    };
    let mut lines: Vec<String> = Vec::new();
    if degraded {
        push_line(&mut lines, string_of(notice));
        push_line(&mut lines, String::new());
        push_line(&mut lines, string_of("   Common causes:"));
        push_line(&mut lines, string_of("   - Interface types without concrete implementations in source (JPA repositories)"));
        push_line(&mut lines, string_of("   - Annotation-driven dependency injection (Spring proxies at runtime)"));
        push_line(&mut lines, string_of("   - LSP still warming up (wait 30s, try again)"));
        push_line(&mut lines, String::new());
        if symbol_name.is_empty() {
            push_line(&mut lines, string_of("   Workaround: Use search to find usages manually."));
        } else {
            let mut w = string_of("   Workaround: Use search(query=\"");
            push_str(&mut w, symbol_name);
            push_str(&mut w, "\") to find usages manually.");
            push_line(&mut lines, w);
        }
        push_line(&mut lines, string_of("   Reference counts below are heuristic only:"));
        push_line(&mut lines, String::new());
    } else if inc == 0 && out == 0 {
        push_line(&mut lines, string_of("LSP confirmed: zero callers/callees for this symbol."));
    } else if inc == 0 {
        push_line(&mut lines, string_of("LSP confirmed: zero incoming callers (callees found below)."));
    } else if out == 0 {
        push_line(&mut lines, string_of("LSP confirmed: zero outgoing callees (callers found below)."));
    }
    assert(views(lines@) =~= trace_preamble(
        degraded,
        notice@,
        symbol_name@,
        count_of(opt_view(*incoming)),
        count_of(opt_view(*outgoing)),
    ));
    let mut h = string_of("Incoming references: ");
    push_decimal(&mut h, inc as u64);
    push_line(&mut lines, h);
    push_reference_lines(&mut lines, incoming);
    let mut h2 = string_of("Outgoing references: ");
    push_decimal(&mut h2, out as u64);
    push_line(&mut lines, h2);
    push_reference_lines(&mut lines, outgoing);
    let mut done = string_of("[completed in ");
    push_decimal(&mut done, duration_ms);
    push_str(&mut done, "ms]");
    push_line(&mut lines, done);
    proof {
        let inc_c = count_of(opt_view(*incoming));
        let out_c = count_of(opt_view(*outgoing));
        assert(views(lines@) =~= trace_preamble(degraded, notice@, symbol_name@, inc_c, out_c)
            + seq!["Incoming references: "@ + decimal(inc_c)] + listed(opt_view(*incoming))
            + seq!["Outgoing references: "@ + decimal(out_c)] + listed(opt_view(*outgoing))
            + seq!["[completed in "@ + decimal(duration_ms as nat) + "ms]"@]);
    }
    join_strings(&lines, "\n")
}

} // verus!
