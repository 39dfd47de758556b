//! Why a navigation result is degraded, and how ready the language server is
//! taken to be.

use vstd::prelude::*;

verus! {

/// Why a navigation result comes from a fallback instead of the language
/// server.
#[derive(PartialEq, Eq, Structural, Clone, Copy, Debug)]
pub enum DegradedReason {
    NoLsp,
    LspWarmupEmptyUnverified,
    LspWarmupGrepFallback,
    LspTimeoutGrepFallback,
    LspErrorGrepFallback,
    NoLspGrepFallback,
    GrepFallbackDependencies,
    GrepFallbackFileScoped,
    GrepFallbackImplScoped,
    GrepFallbackGlobal,
}

/// The name of a reason as the tools report it.
pub open spec fn reason_text(r: DegradedReason) -> Seq<char> {
    match r {
        DegradedReason::NoLsp => "no_lsp"@,
        DegradedReason::LspWarmupEmptyUnverified => "lsp_warmup_empty_unverified"@,
        DegradedReason::LspWarmupGrepFallback => "lsp_warmup_grep_fallback"@,
        DegradedReason::LspTimeoutGrepFallback => "lsp_timeout_grep_fallback"@,
        DegradedReason::LspErrorGrepFallback => "lsp_error_grep_fallback"@,
        DegradedReason::NoLspGrepFallback => "no_lsp_grep_fallback"@,
        DegradedReason::GrepFallbackDependencies => "grep_fallback_dependencies"@,
        DegradedReason::GrepFallbackFileScoped => "grep_fallback_file_scoped"@,
        DegradedReason::GrepFallbackImplScoped => "grep_fallback_impl_scoped"@,
        DegradedReason::GrepFallbackGlobal => "grep_fallback_global"@,
    }
}

impl DegradedReason {
    /// The name of the reason as the tools report it.
    pub fn as_str(&self) -> (s: &'static str)
        ensures
            s@ == reason_text(*self),
    {
        match self {
            DegradedReason::NoLsp => "no_lsp",
            DegradedReason::LspWarmupEmptyUnverified => "lsp_warmup_empty_unverified",
            DegradedReason::LspWarmupGrepFallback => "lsp_warmup_grep_fallback",
            DegradedReason::LspTimeoutGrepFallback => "lsp_timeout_grep_fallback",
            DegradedReason::LspErrorGrepFallback => "lsp_error_grep_fallback",
            DegradedReason::NoLspGrepFallback => "no_lsp_grep_fallback",
            DegradedReason::GrepFallbackDependencies => "grep_fallback_dependencies",
            DegradedReason::GrepFallbackFileScoped => "grep_fallback_file_scoped",
            DegradedReason::GrepFallbackImplScoped => "grep_fallback_impl_scoped",
            DegradedReason::GrepFallbackGlobal => "grep_fallback_global",
        }
    }
}

/// How ready the language server is taken to be for one answer.
#[derive(PartialEq, Eq, Structural, Clone, Copy, Debug)]
pub enum LspReadiness {
    Ready,
    WarmingUp,
    Unavailable,
}

/// The reasons that mean the server exists but is still warming up.
pub open spec fn is_warmup_reason(r: DegradedReason) -> bool {
    r == DegradedReason::LspWarmupEmptyUnverified || r == DegradedReason::LspWarmupGrepFallback
        || r == DegradedReason::LspTimeoutGrepFallback
}

pub open spec fn spec_lsp_readiness(degraded: bool, reason: Option<DegradedReason>) -> LspReadiness {
    if !degraded {
        LspReadiness::Ready
    } else {
        match reason {
            Some(r) => if is_warmup_reason(r) {
                LspReadiness::WarmingUp
            } else {
                LspReadiness::Unavailable
            },
            None => LspReadiness::Unavailable,
        }
    }
}

/// Readiness of an answer: ready when not degraded, warming up when degraded
/// for a warm-up or time-out reason, unavailable otherwise.
pub fn lsp_readiness(degraded: bool, reason: Option<DegradedReason>) -> (r: LspReadiness)
    ensures
        r == spec_lsp_readiness(degraded, reason),
{
    if !degraded {
        LspReadiness::Ready
    } else {
        match reason {
            Some(
                DegradedReason::LspWarmupEmptyUnverified
                | DegradedReason::LspWarmupGrepFallback
                | DegradedReason::LspTimeoutGrepFallback,
            ) => LspReadiness::WarmingUp,
            _ => LspReadiness::Unavailable,
        }
    }
}

/// Whether a warm start is in progress: yes while warming up, no when ready,
/// unknown when the server is unavailable.
pub fn warm_start_in_progress(r: LspReadiness) -> (w: Option<bool>)
    ensures
        w == (match r {
            LspReadiness::WarmingUp => Some(true),
            LspReadiness::Ready => Some(false),
            LspReadiness::Unavailable => None::<bool>,
        }),
{
    match r {
        LspReadiness::WarmingUp => Some(true),
        LspReadiness::Ready => Some(false),
        LspReadiness::Unavailable => None,
    }
}

pub open spec fn readiness_text(r: LspReadiness) -> Seq<char> {
    match r {
        LspReadiness::Ready => "ready"@,
        LspReadiness::WarmingUp => "warming_up"@,
        LspReadiness::Unavailable => "unavailable"@,
    }
}

impl LspReadiness {
    /// The word the tools report for a readiness.
    pub fn as_str(&self) -> (s: &'static str)
        ensures
            s@ == readiness_text(*self),
    {
        match self {
            LspReadiness::Ready => "ready",
            LspReadiness::WarmingUp => "warming_up",
            LspReadiness::Unavailable => "unavailable",
        }
    }
}

} // verus!
