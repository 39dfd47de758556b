//! Decisions of the impact-analysis tool: how the server's answer and the
//! text-search fallback for callers combine, and the text answer.

use vstd::prelude::*;
use crate::bfs::ImpactReference;
use crate::impact::{
    count_of, listed, opt_view, push_line, push_reference_lines,
    PrepareOutcome,
};
use crate::reason::{reason_text, DegradedReason};
use crate::text::{decimal, join_seqs, join_strings, push_decimal, push_str, string_of, views};

verus! {

/// Whether the impact analysis searches the text for callers: when the
/// server answered with nothing it could vouch for, had no call hierarchy,
/// or timed out.
pub open spec fn spec_analyze_needs_grep(outcome: PrepareOutcome) -> bool {
    outcome == PrepareOutcome::EmptyCold || outcome == PrepareOutcome::Unavailable || outcome
        == PrepareOutcome::Timeout
}

/// Whether the impact analysis searches the text for callers.
pub fn analyze_needs_grep(outcome: PrepareOutcome) -> (r: bool)
    ensures
        r == spec_analyze_needs_grep(outcome),
{
    outcome == PrepareOutcome::EmptyCold || outcome == PrepareOutcome::Unavailable || outcome
        == PrepareOutcome::Timeout
}

/// The callers, callees and degradation of an impact analysis.
pub struct ImpactAnalysis {
    pub incoming: Option<Vec<ImpactReference>>,
    pub outgoing: Option<Vec<ImpactReference>>,
    pub degraded: bool,
    pub degraded_reason: Option<DegradedReason>,
}

/// The analysis for each outcome of the server, given the traversal's
/// references (used after `Items`) and the text-search callers (used where
/// the search runs; `None` when it failed or matched nothing).
pub open spec fn spec_analyze_resolution(
    outcome: PrepareOutcome,
    bfs_in: Seq<ImpactReference>,
    bfs_out: Seq<ImpactReference>,
    grep_in: Option<Seq<ImpactReference>>,
) -> (Option<Seq<ImpactReference>>, Option<Seq<ImpactReference>>, bool, Option<DegradedReason>) {
    match outcome {
        PrepareOutcome::Items => (Some(bfs_in), Some(bfs_out), false, None),
        PrepareOutcome::EmptyWarm => (Some(Seq::empty()), Some(Seq::empty()), false, None),
        PrepareOutcome::EmptyCold => (
            grep_in,
            None,
            true,
            Some(
                if grep_in is Some {
                    DegradedReason::LspWarmupGrepFallback
                } else {
                    DegradedReason::LspWarmupEmptyUnverified
                },
            ),
        ),
        PrepareOutcome::Unavailable => (
            grep_in,
            None,
            true,
            Some(
                if grep_in is Some {
                    DegradedReason::NoLspGrepFallback
                } else {
                    DegradedReason::NoLsp
                },
            ),
        ),
        PrepareOutcome::Timeout => (
            grep_in,
            None,
            true,
            Some(
                if grep_in is Some {
                    DegradedReason::LspTimeoutGrepFallback
                } else {
                    DegradedReason::NoLsp
                },
            ),
        ),
        PrepareOutcome::Failed => (None, None, true, Some(DegradedReason::NoLsp)),
    }
}

/// Combines the server's outcome, the traversal's references and the
/// text-search callers into the analysis.
pub fn resolve_analysis(
    outcome: PrepareOutcome,
    bfs_in: Vec<ImpactReference>,
    bfs_out: Vec<ImpactReference>,
    grep_in: Option<Vec<ImpactReference>>,
) -> (r: ImpactAnalysis)
    ensures
        (opt_view(r.incoming), opt_view(r.outgoing), r.degraded, r.degraded_reason)
            == spec_analyze_resolution(outcome, bfs_in@, bfs_out@, opt_view(grep_in)),
{
    match outcome {
        PrepareOutcome::Items => ImpactAnalysis {
            incoming: Some(bfs_in),
            outgoing: Some(bfs_out),
            degraded: false,
            degraded_reason: None,
        },
        PrepareOutcome::EmptyWarm => {
            let r = ImpactAnalysis {
                incoming: Some(Vec::new()),
                outgoing: Some(Vec::new()),
                degraded: false,
                degraded_reason: None,
            };
            assert(opt_view(r.incoming) == Some(Seq::<ImpactReference>::empty()));
            r
        },
        PrepareOutcome::Failed => ImpactAnalysis {
            incoming: None,
            outgoing: None,
            degraded: true,
            degraded_reason: Some(DegradedReason::NoLsp),
        },
        _ => {
            let found = grep_in.is_some();
            let reason = if outcome == PrepareOutcome::EmptyCold {
                if found {
                    DegradedReason::LspWarmupGrepFallback
                } else {
                    DegradedReason::LspWarmupEmptyUnverified
                }
            } else if outcome == PrepareOutcome::Unavailable {
                if found {
                    DegradedReason::NoLspGrepFallback
                } else {
                    DegradedReason::NoLsp
                }
            } else if found {
                DegradedReason::LspTimeoutGrepFallback
            } else {
                DegradedReason::NoLsp
            };
            ImpactAnalysis {
                incoming: grep_in,
                outgoing: None,
                degraded: true,
                degraded_reason: Some(reason),
            }
        },
    }
}

/// The warning that opens a degraded analysis.
pub open spec fn analysis_warning(reason: Option<DegradedReason>) -> Seq<char> {
    "Degraded analysis ("@ + (match reason {
        Some(r) => reason_text(r),
        None => "unknown"@,
    })
        + ") — LSP unavailable — reference counts are UNRELIABLE. Do NOT trust zero as 'confirmed no callers'. Grep-based heuristic was used if available. Use search_codebase for manual verification."@
}

/// The text answer of the impact analysis: the warning when degraded, then
/// each direction's count and references, one line each.
pub open spec fn spec_analysis_text(
    degraded: bool,
    reason: Option<DegradedReason>,
    incoming: Option<Seq<ImpactReference>>,
    outgoing: Option<Seq<ImpactReference>>,
) -> Seq<char> {
    join_seqs(
        (if degraded {
            seq![analysis_warning(reason)]
        } else {
            Seq::empty()
        }) + seq!["Incoming references: "@ + decimal(count_of(incoming))] + listed(incoming)
            + seq!["Outgoing references: "@ + decimal(count_of(outgoing))] + listed(outgoing),
        "\n"@,
    )
}

/// The text answer of the impact analysis.
pub fn analysis_text(a: &ImpactAnalysis) -> (s: String)
    ensures
        s@ == spec_analysis_text(
            a.degraded,
            a.degraded_reason,
            opt_view(a.incoming),
            opt_view(a.outgoing),
        ),
{
    let inc: usize = match &a.incoming {
        Some(v) => v.len(),
        None => 0,
    };
    let out: usize = match &a.outgoing {
        Some(v) => v.len(),
        None => 0,
    };
    let mut lines: Vec<String> = Vec::new();
    if a.degraded {
        let mut w = string_of("Degraded analysis (");
        match &a.degraded_reason {
            Some(r) => push_str(&mut w, r.as_str()),
            None => push_str(&mut w, "unknown"),
        }
        push_str(
            &mut w,
            ") — LSP unavailable — reference counts are UNRELIABLE. Do NOT trust zero as 'confirmed no callers'. Grep-based heuristic was used if available. Use search_codebase for manual verification.",
        );
        push_line(&mut lines, w);
    }
    let mut h = string_of("Incoming references: ");
    push_decimal(&mut h, inc as u64);
    push_line(&mut lines, h);
    push_reference_lines(&mut lines, &a.incoming);
    let mut h2 = string_of("Outgoing references: ");
    push_decimal(&mut h2, out as u64);
    push_line(&mut lines, h2);
    push_reference_lines(&mut lines, &a.outgoing);
    proof {
        let inc_c = count_of(opt_view(a.incoming));
        let out_c = count_of(opt_view(a.outgoing));
        let pre: Seq<Seq<char>> = if a.degraded {
            seq![analysis_warning(a.degraded_reason)]
        } else {
            Seq::empty()
        };
        assert(views(lines@) =~= pre + seq!["Incoming references: "@ + decimal(inc_c)] + listed(
            opt_view(a.incoming),
        ) + seq!["Outgoing references: "@ + decimal(out_c)] + listed(opt_view(a.outgoing)));
    }
    join_strings(&lines, "\n")
}

/// An impact analysis is undegraded exactly when the server either returned
/// call-hierarchy items or vouched for an empty hierarchy; then it never
/// carries a degraded reason, and otherwise it always does.
pub proof fn law_analysis_undegraded_only_from_server(
    outcome: PrepareOutcome,
    bfs_in: Seq<ImpactReference>,
    bfs_out: Seq<ImpactReference>,
    grep_in: Option<Seq<ImpactReference>>,
)
    ensures
        !spec_analyze_resolution(outcome, bfs_in, bfs_out, grep_in).2 <==> (outcome
            == PrepareOutcome::Items || outcome == PrepareOutcome::EmptyWarm),
        spec_analyze_resolution(outcome, bfs_in, bfs_out, grep_in).2 <==> spec_analyze_resolution(
            outcome,
            bfs_in,
            bfs_out,
            grep_in,
        ).3 is Some,
{
}

/// An impact analysis reports what was found: when the server returned
/// call-hierarchy items, exactly the traversals' callers and callees; where
/// the text search for callers runs and finds some, those callers; and the
/// text search never stands in for callees.
pub proof fn law_analysis_reports_found_references(
    outcome: PrepareOutcome,
    bfs_in: Seq<ImpactReference>,
    bfs_out: Seq<ImpactReference>,
    grep_in: Option<Seq<ImpactReference>>,
)
    ensures
        ({
            let r = spec_analyze_resolution(outcome, bfs_in, bfs_out, grep_in);
            &&& (outcome == PrepareOutcome::Items ==> r.0 == Some(bfs_in) && r.1 == Some(bfs_out))
            &&& (spec_analyze_needs_grep(outcome) && grep_in is Some ==> r.0 == grep_in)
            &&& (spec_analyze_needs_grep(outcome) ==> r.1 is None && r.2)
            &&& (r.1 is Some ==> outcome == PrepareOutcome::Items || outcome
                == PrepareOutcome::EmptyWarm)
            &&& (r.0 == grep_in || r.0 == Some(bfs_in) || r.0 == Some(Seq::<ImpactReference>::empty())
                || r.0 is None)
        }),
{
}

} // verus!
