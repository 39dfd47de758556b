//! Decisions of the definition tool: the text-search fallbacks' patterns and
//! results, how the server's answers and the fallback combine, and the text
//! answer.

use vstd::prelude::*;
use crate::paths::{extension_range, path_extension};
use crate::reason::{DegradedReason, LspReadiness};
use crate::text::{
    chars_of, decimal, push_decimal, push_str, string_of, string_of_chars,
};

verus! {

/// One match of a text search.
pub struct SearchMatch {
    pub file: String,
    pub line: u64,
    pub column: u64,
    pub content: String,
    pub enclosing_semantic_path: Option<String>,
}

/// A definition location as the tool reports it.
pub struct GetDefinitionResponse {
    pub file: String,
    pub line: u32,
    pub column: u32,
    pub preview: String,
    pub degraded: bool,
    pub degraded_reason: Option<DegradedReason>,
    pub lsp_readiness: Option<LspReadiness>,
    pub warm_start_in_progress: Option<bool>,
    pub duration_ms: Option<u64>,
    pub resolution_strategy: Option<String>,
}

/// Which text-search strategy found a definition.
#[derive(PartialEq, Eq, Structural, Clone, Copy, Debug)]
pub enum GrepStrategy {
    /// Definition patterns in the expected file.
    File,
    /// A method inside an `impl` block of the parent type.
    Impl,
    /// Definition patterns anywhere outside tests and mocks.
    Global,
    /// The bare symbol name anywhere outside tests and mocks.
    Broad,
}

pub open spec fn strategy_reason(s: GrepStrategy) -> DegradedReason {
    match s {
        GrepStrategy::File => DegradedReason::GrepFallbackFileScoped,
        GrepStrategy::Impl => DegradedReason::GrepFallbackImplScoped,
        GrepStrategy::Global => DegradedReason::GrepFallbackGlobal,
        GrepStrategy::Broad => DegradedReason::GrepFallbackGlobal,
    }
}

pub open spec fn strategy_text(s: GrepStrategy) -> Seq<char> {
    match s {
        GrepStrategy::File => "grep_file"@,
        GrepStrategy::Impl => "grep_impl"@,
        GrepStrategy::Global => "grep_global"@,
        GrepStrategy::Broad => "grep_broad"@,
    }
}

/// The order in which the text-search fallback tries its strategies: the
/// expected file, then (for a method, whose symbol has a parent) the parent's
/// `impl` blocks, then the whole workspace, then the bare name.
pub open spec fn spec_next_grep_strategy(after: Option<GrepStrategy>, has_parent: bool) -> Option<
    GrepStrategy,
> {
    match after {
        None => Some(GrepStrategy::File),
        Some(GrepStrategy::File) => if has_parent {
            Some(GrepStrategy::Impl)
        } else {
            Some(GrepStrategy::Global)
        },
        Some(GrepStrategy::Impl) => Some(GrepStrategy::Global),
        Some(GrepStrategy::Global) => Some(GrepStrategy::Broad),
        Some(GrepStrategy::Broad) => None,
    }
}

/// The strategy to try after `after` found nothing (`None`: the first one);
/// `None` when all have been tried.
pub fn next_grep_strategy(after: Option<GrepStrategy>, has_parent: bool) -> (r: Option<GrepStrategy>)
    ensures
        r == spec_next_grep_strategy(after, has_parent),
{
    match after {
        None => Some(GrepStrategy::File),
        Some(GrepStrategy::File) => if has_parent {
            Some(GrepStrategy::Impl)
        } else {
            Some(GrepStrategy::Global)
        },
        Some(GrepStrategy::Impl) => Some(GrepStrategy::Global),
        Some(GrepStrategy::Global) => Some(GrepStrategy::Broad),
        Some(GrepStrategy::Broad) => None,
    }
}

/// The names a text-search fallback looks for, from the segments of a
/// symbol chain: the symbol (the last segment) and its parent (the one
/// before it), or `None` for an empty chain.
pub fn symbol_and_parent(segments: &Vec<String>) -> (r: Option<(String, Option<String>)>)
    ensures
        match r {
            None => segments.len() == 0,
            Some((name, parent)) => {
                &&& segments.len() > 0
                &&& name@ == segments@.last()@
                &&& match parent {
                    None => segments.len() == 1,
                    Some(p) => segments.len() >= 2 && p@ == segments@[segments.len() - 2]@,
                }
            },
        },
{
    let n = segments.len();
    if n == 0 {
        return None;
    }
    let name = segments[n - 1].clone();
    let parent = if n >= 2 {
        Some(segments[n - 2].clone())
    } else {
        None
    };
    Some((name, parent))
}

/// `u32::try_from(x).unwrap_or(default)`.
pub open spec fn u32_or(x: u64, default: u32) -> u32 {
    if x <= u32::MAX {
        x as u32
    } else {
        default
    }
}

/// The degraded definition that strategy `s` reports for its first match `m`:
/// the match's place and line as preview, the strategy's reason and name,
/// and an unavailable server.
pub open spec fn grep_definition_fits(r: GetDefinitionResponse, m: SearchMatch, s: GrepStrategy) -> bool {
    &&& r.file@ == m.file@
    &&& r.line == u32_or(m.line, u32::MAX)
    &&& r.column == u32_or(m.column, 1)
    &&& r.preview@ == m.content@
    &&& r.degraded
    &&& r.degraded_reason == Some(strategy_reason(s))
    &&& r.lsp_readiness == Some(LspReadiness::Unavailable)
    &&& r.warm_start_in_progress is None
    &&& r.duration_ms is None
    &&& r.resolution_strategy matches Some(t) && t@ == strategy_text(s)
}

fn u32_or_default(x: u64, default: u32) -> (r: u32)
    ensures
        r == u32_or(x, default),
{
    if x <= 0xffff_ffffu64 {
        x as u32
    } else {
        default
    }
}

/// The degraded definition that a text-search strategy reports for its
/// first match.
pub fn grep_definition(m: &SearchMatch, s: GrepStrategy) -> (r: GetDefinitionResponse)
    ensures
        grep_definition_fits(r, *m, s),
{
    let strategy = match s {
        GrepStrategy::File => string_of("grep_file"),
        GrepStrategy::Impl => string_of("grep_impl"),
        GrepStrategy::Global => string_of("grep_global"),
        GrepStrategy::Broad => string_of("grep_broad"),
    };
    let reason = match s {
        GrepStrategy::File => DegradedReason::GrepFallbackFileScoped,
        GrepStrategy::Impl => DegradedReason::GrepFallbackImplScoped,
        GrepStrategy::Global => DegradedReason::GrepFallbackGlobal,
        GrepStrategy::Broad => DegradedReason::GrepFallbackGlobal,
    };
    GetDefinitionResponse {
        file: m.file.clone(),
        line: u32_or_default(m.line, 0xffff_ffffu32),
        column: u32_or_default(m.column, 1),
        preview: m.content.clone(),
        degraded: true,
        degraded_reason: Some(reason),
        lsp_readiness: Some(LspReadiness::Unavailable),
        warm_start_in_progress: None,
        duration_ms: None,
        resolution_strategy: Some(strategy),
    }
}

/// `regex_syntax::is_meta_character`.
pub open spec fn is_meta_character(c: char) -> bool {
    c == '\\' || c == '.' || c == '+' || c == '*' || c == '?' || c == '(' || c == ')' || c == '|'
        || c == '[' || c == ']' || c == '{' || c == '}' || c == '^' || c == '$' || c == '#' || c
        == '&' || c == '-' || c == '~'
}

/// `regex::escape`: every meta character preceded by a backslash.
pub open spec fn regex_escaped(s: Seq<char>) -> Seq<char>
    decreases s.len(),
{
    if s.len() == 0 {
        Seq::empty()
    } else {
        regex_escaped(s.drop_last()) + if is_meta_character(s.last()) {
            seq!['\\', s.last()]
        } else {
            seq![s.last()]
        }
    }
}

/// Calls `regex::escape`, which puts a backslash before each of the
/// characters `\ . + * ? ( ) | [ ] { } ^ $ # & - ~` and copies the others.
#[verifier::external_body]
fn regex_escape(s: &str) -> (r: String)
    ensures
        r@ == regex_escaped(s@),
{
    regex::escape(s)
}

/// Pattern of the `impl` block of `parent`.
pub open spec fn impl_pattern_spec(parent: Seq<char>) -> Seq<char> {
    "impl\\s+(?:<[^>]+>\\s+)?"@ + regex_escaped(parent) + "\\b"@
}

/// Pattern of the `impl` block of `parent`, generic or not.
pub fn impl_pattern(parent: &str) -> (r: String)
    ensures
        r@ == impl_pattern_spec(parent@),
{
    let mut s = string_of("impl\\s+(?:<[^>]+>\\s+)?");
    push_str(&mut s, regex_escape(parent).as_str());
    push_str(&mut s, "\\b");
    s
}

/// Pattern of a method definition named `method` in a file with extension
/// `ext`, per language.
pub open spec fn method_pattern_spec(ext: Seq<char>, method: Seq<char>) -> Seq<char> {
    let m = regex_escaped(method);
    if ext == "rs"@ {
        "(?:(?:pub|crate)\\s*(?:\\([^)]*\\)\\s*)?(?:async\\s*)?)?fn\\s+"@ + m + "\\b"@
    } else if ext == "ts"@ || ext == "js"@ || ext == "tsx"@ || ext == "jsx"@ {
        "(?:(?:export\\s+(?:default\\s*)?)?(?:async\\s+)?)?(?:function\\s+"@ + m + "\\b|"@ + m
            + "\\s*[=:])"@
    } else if ext == "py"@ {
        "(?:async\\s+)?def\\s+"@ + m + "\\b"@
    } else if ext == "go"@ {
        "func\\s+(?:\\([^)]*\\)\\s+)?"@ + m + "\\b"@
    } else if ext == "java"@ {
        "(?:public\\s+|private\\s+|protected\\s+|static\\s+|final\\s+|abstract\\s+)*(?:<[^>]*>\\s+)?[a-zA-Z_][a-zA-Z0-9_<>\\[\\],\\s]+\\s+"@
            + m + "\\s*\\("@
    } else {
        "\\b"@ + m + "\\b"@
    }
}

/// The extension of `file` as `Path::extension` gives it, or empty.
pub open spec fn ext_or_empty(file: Seq<char>) -> Seq<char> {
    match path_extension(file) {
        Some(e) => e,
        None => Seq::empty(),
    }
}

fn extension_of(file: &str) -> (r: Vec<char>)
    ensures
        r@ == ext_or_empty(file@),
{
    let v = chars_of(file);
    match extension_range(&v) {
        None => Vec::new(),
        Some((a, b)) => {
            let mut out: Vec<char> = Vec::new();
            let mut i = a;
            while i < b
                invariant
                    a <= i <= b <= v.len(),
                    out@ == v@.subrange(a as int, i as int),
                decreases b - i,
            {
                out.push(v[i]);
                assert(v@.subrange(a as int, i + 1) =~= v@.subrange(a as int, i as int).push(
                    v@[i as int],
                ));
                i = i + 1;
            }
            out
        },
    }
}

fn chars_eq(v: &Vec<char>, t: &str) -> (r: bool)
    ensures
        r == (v@ == t@),
{
    assert(v@.subrange(0, v.len() as int) =~= v@);
    crate::text::range_eq(v, 0, v.len(), &chars_of(t))
}

/// Pattern of a method definition named `method` in the file `file`.
pub fn method_pattern(file: &str, method: &str) -> (r: String)
    ensures
        r@ == method_pattern_spec(ext_or_empty(file@), method@),
{
    let ext = extension_of(file);
    let m = regex_escape(method);
    let ms = m.as_str();
    if chars_eq(&ext, "rs") {
        let mut s = string_of("(?:(?:pub|crate)\\s*(?:\\([^)]*\\)\\s*)?(?:async\\s*)?)?fn\\s+");
        push_str(&mut s, ms);
        push_str(&mut s, "\\b");
        s
    } else if chars_eq(&ext, "ts") || chars_eq(&ext, "js") || chars_eq(&ext, "tsx") || chars_eq(
        &ext,
        "jsx",
    ) {
        let mut s = string_of("(?:(?:export\\s+(?:default\\s*)?)?(?:async\\s+)?)?(?:function\\s+");
        push_str(&mut s, ms);
        push_str(&mut s, "\\b|");
        push_str(&mut s, ms);
        push_str(&mut s, "\\s*[=:])");
        s
    } else if chars_eq(&ext, "py") {
        let mut s = string_of("(?:async\\s+)?def\\s+");
        push_str(&mut s, ms);
        push_str(&mut s, "\\b");
        s
    } else if chars_eq(&ext, "go") {
        let mut s = string_of("func\\s+(?:\\([^)]*\\)\\s+)?");
        push_str(&mut s, ms);
        push_str(&mut s, "\\b");
        s
    } else if chars_eq(&ext, "java") {
        let mut s = string_of(
            "(?:public\\s+|private\\s+|protected\\s+|static\\s+|final\\s+|abstract\\s+)*(?:<[^>]*>\\s+)?[a-zA-Z_][a-zA-Z0-9_<>\\[\\],\\s]+\\s+",
        );
        push_str(&mut s, ms);
        push_str(&mut s, "\\s*\\(");
        s
    } else {
        let mut s = string_of("\\b");
        push_str(&mut s, ms);
        push_str(&mut s, "\\b");
        s
    }
}

/// Pattern of a definition of `name` in any of the supported languages,
/// with an optional visibility modifier.
pub open spec fn global_pattern_spec(name: Seq<char>) -> Seq<char> {
    "(?:(?:pub|export|public|private|protected|internal|open)\\s*(?:\\([^)]*\\)\\s*)?(?:async\\s*)?)?(?:fn|def|func|function|class|struct|type|interface|const|let|var|enum|trait|mod)\\s+"@
        + regex_escaped(name) + "\\b"@
}

/// Pattern of a definition of `name` in any of the supported languages.
pub fn global_pattern(name: &str) -> (r: String)
    ensures
        r@ == global_pattern_spec(name@),
{
    let mut s = string_of(
        "(?:(?:pub|export|public|private|protected|internal|open)\\s*(?:\\([^)]*\\)\\s*)?(?:async\\s*)?)?(?:fn|def|func|function|class|struct|type|interface|const|let|var|enum|trait|mod)\\s+",
    );
    push_str(&mut s, regex_escape(name).as_str());
    push_str(&mut s, "\\b");
    s
}

/// Pattern of the bare word `name`.
pub open spec fn word_pattern_spec(name: Seq<char>) -> Seq<char> {
    "\\b"@ + regex_escaped(name) + "\\b"@
}

/// Pattern of the bare word `name`, used by the broad definition search and
/// by the reference search.
pub fn word_pattern(name: &str) -> (r: String)
    ensures
        r@ == word_pattern_spec(name@),
{
    let mut s = string_of("\\b");
    push_str(&mut s, regex_escape(name).as_str());
    push_str(&mut s, "\\b");
    s
}

/// The glob of the files that share the expected file's extension.
pub fn impl_search_glob(expected_file: &str) -> (r: String)
    ensures
        r@ == "**/*."@ + ext_or_empty(expected_file@),
{
    let ext = extension_of(expected_file);
    let mut s = string_of("**/*.");
    crate::text::push_chars(&mut s, &ext);
    s
}

/// A path with each `\` turned into `/`.
pub open spec fn forward_slashes(s: Seq<char>) -> Seq<char> {
    Seq::new(s.len(), |i: int| if s[i] == '\\' { '/' } else { s[i] })
}

/// The glob of one file, with forward slashes.
pub fn file_glob(file: &str) -> (r: String)
    ensures
        r@ == forward_slashes(file@),
{
    let v = chars_of(file);
    let mut out: Vec<char> = Vec::new();
    let mut i: usize = 0;
    while i < v.len()
        invariant
            i <= v.len(),
            out@ =~= forward_slashes(v@).take(i as int),
        decreases v.len() - i,
    {
        if v[i] == '\\' {
            out.push('/');
        } else {
            out.push(v[i]);
        }
        i = i + 1;
    }
    string_of_chars(&out)
}

/// A definition location returned by the language server.
pub struct LspDefinition {
    pub file: String,
    pub line: u32,
    pub column: u32,
    pub preview: String,
}

/// How the language server answered a go-to-definition request.
pub enum GotoOutcome {
    Found(LspDefinition),
    NotFound,
    NoLsp,
    Timeout,
    Failed(String),
}

/// Why no definition could be given.
pub enum DefinitionError {
    SymbolNotFound {
        semantic_path: String,
        did_you_mean: Vec<String>,
        retry_after_seconds: Option<u32>,
    },
    NoLspAvailable { language: String },
    LspError { message: String },
}

/// Whether the request is asked again after a short wait: only when the
/// server found nothing.
pub fn definition_needs_retry(first: &GotoOutcome) -> (r: bool)
    ensures
        r == (*first is NotFound),
{
    match first {
        GotoOutcome::NotFound => true,
        _ => false,
    }
}

/// Whether the text-search fallback runs: when the server gave no
/// definition, on the first request or on the retry.
pub open spec fn spec_definition_needs_grep(first: GotoOutcome, retry: Option<GotoOutcome>) -> bool {
    match first {
        GotoOutcome::Found(_) => false,
        GotoOutcome::NotFound => !(retry matches Some(GotoOutcome::Found(_))),
        _ => true,
    }
}

/// Whether the text-search fallback runs.
pub fn definition_needs_grep(first: &GotoOutcome, retry: &Option<GotoOutcome>) -> (r: bool)
    ensures
        r == spec_definition_needs_grep(*first, *retry),
{
    match first {
        GotoOutcome::Found(_) => false,
        GotoOutcome::NotFound => match retry {
            Some(GotoOutcome::Found(_)) => false,
            _ => true,
        },
        _ => true,
    }
}

/// The text-search fallback runs exactly when the server gave no
/// definition: neither on the first request nor on the retry after a first
/// answer of "not found". A timeout, a missing server or an error all lead
/// to the search.
pub proof fn law_definition_grep_when_server_gave_none(first: GotoOutcome, retry: Option<GotoOutcome>)
    ensures
        spec_definition_needs_grep(first, retry) <==> !(first is Found || (first is NotFound
            && retry is Some && retry->0 is Found)),
        first is Timeout ==> spec_definition_needs_grep(first, retry),
        first is NoLsp ==> spec_definition_needs_grep(first, retry),
        first is Failed ==> spec_definition_needs_grep(first, retry),
{
}

/// The server's definition as an undegraded answer.
pub open spec fn lsp_answer_fits(
    r: GetDefinitionResponse,
    d: LspDefinition,
    readiness: LspReadiness,
    warm: bool,
    elapsed_ms: u64,
    strategy: Seq<char>,
) -> bool {
    &&& r.file@ == d.file@
    &&& r.line == d.line
    &&& r.column == d.column
    &&& r.preview@ == d.preview@
    &&& !r.degraded
    &&& r.degraded_reason is None
    &&& r.lsp_readiness == Some(readiness)
    &&& r.warm_start_in_progress == Some(warm)
    &&& r.duration_ms == Some(elapsed_ms)
    &&& r.resolution_strategy matches Some(s) && s@ == strategy
}

/// The text-search answer `g` reported for the situation `context`: the
/// strategy's reason is kept when the method was found in its `impl` block,
/// and replaced by `context` otherwise.
pub open spec fn grep_answer_fits(
    r: GetDefinitionResponse,
    g: GetDefinitionResponse,
    context: DegradedReason,
    elapsed_ms: u64,
) -> bool {
    &&& r.file == g.file
    &&& r.line == g.line
    &&& r.column == g.column
    &&& r.preview == g.preview
    &&& r.degraded == (g.degraded || context == DegradedReason::LspErrorGrepFallback)
    &&& r.degraded_reason == (if g.degraded_reason == Some(DegradedReason::GrepFallbackImplScoped) {
        g.degraded_reason
    } else {
        Some(context)
    })
    &&& r.lsp_readiness == g.lsp_readiness
    &&& r.warm_start_in_progress == g.warm_start_in_progress
    &&& r.duration_ms == Some(elapsed_ms)
    &&& r.resolution_strategy == g.resolution_strategy
}

fn lsp_answer(d: LspDefinition, readiness: LspReadiness, warm: bool, elapsed_ms: u64, strategy: &str) -> (r:
    GetDefinitionResponse)
    ensures
        lsp_answer_fits(r, d, readiness, warm, elapsed_ms, strategy@),
{
    GetDefinitionResponse {
        file: d.file,
        line: d.line,
        column: d.column,
        preview: d.preview,
        degraded: false,
        degraded_reason: None,
        lsp_readiness: Some(readiness),
        warm_start_in_progress: Some(warm),
        duration_ms: Some(elapsed_ms),
        resolution_strategy: Some(string_of(strategy)),
    }
}

fn grep_answer(g: GetDefinitionResponse, context: DegradedReason, elapsed_ms: u64) -> (r:
    GetDefinitionResponse)
    ensures
        grep_answer_fits(r, g, context, elapsed_ms),
{
    let mut r = g;
    if r.degraded_reason != Some(DegradedReason::GrepFallbackImplScoped) {
        r.degraded_reason = Some(context);
    }
    if context == DegradedReason::LspErrorGrepFallback {
        r.degraded = true;
    }
    r.duration_ms = Some(elapsed_ms);
    r
}

/// Combines the server's first answer, the retry's answer (asked only after
/// `NotFound`) and the text-search fallback's result into the tool's
/// answer; `elapsed_ms` is the time taken so far.
pub fn resolve_definition(
    first: GotoOutcome,
    retry: Option<GotoOutcome>,
    grep: Option<GetDefinitionResponse>,
    semantic_path: &str,
    did_you_mean: Vec<String>,
    warm_start_complete: bool,
    language: &str,
    elapsed_ms: u64,
) -> (r: Result<GetDefinitionResponse, DefinitionError>)
    ensures
        match first {
            GotoOutcome::Found(d) => r matches Ok(a) && lsp_answer_fits(
                a,
                d,
                LspReadiness::Ready,
                false,
                elapsed_ms,
                "lsp"@,
            ),
            GotoOutcome::NotFound => match retry {
                Some(GotoOutcome::Found(d)) => r matches Ok(a) && lsp_answer_fits(
                    a,
                    d,
                    LspReadiness::WarmingUp,
                    true,
                    elapsed_ms,
                    "lsp_retry"@,
                ),
                _ => match grep {
                    Some(g) => r matches Ok(a) && grep_answer_fits(
                        a,
                        g,
                        DegradedReason::LspWarmupGrepFallback,
                        elapsed_ms,
                    ),
                    None => r matches Err(DefinitionError::SymbolNotFound {
                        semantic_path: p,
                        did_you_mean: dym,
                        retry_after_seconds: ra,
                    }) && p@ == semantic_path@ && dym@ == did_you_mean@ && ra == (if warm_start_complete {
                        None
                    } else {
                        Some(10u32)
                    }),
                },
            },
            GotoOutcome::NoLsp => match grep {
                Some(g) => r matches Ok(a) && grep_answer_fits(
                    a,
                    g,
                    DegradedReason::NoLspGrepFallback,
                    elapsed_ms,
                ),
                None => r matches Err(DefinitionError::NoLspAvailable { language: l }) && l@
                    == language@,
            },
            GotoOutcome::Timeout => match grep {
                Some(g) => r matches Ok(a) && grep_answer_fits(
                    a,
                    g,
                    DegradedReason::LspTimeoutGrepFallback,
                    elapsed_ms,
                ),
                None => r matches Err(DefinitionError::LspError { message: m }) && m@
                    == "LSP timed out and grep fallback found no match"@,
            },
            GotoOutcome::Failed(e) => match grep {
                Some(g) => r matches Ok(a) && grep_answer_fits(
                    a,
                    g,
                    DegradedReason::LspErrorGrepFallback,
                    elapsed_ms,
                ),
                None => r matches Err(DefinitionError::LspError { message: m }) && m@ == e@,
            },
        },
{
    match first {
        GotoOutcome::Found(d) => Ok(lsp_answer(d, LspReadiness::Ready, false, elapsed_ms, "lsp")),
        GotoOutcome::NotFound => {
            if let Some(GotoOutcome::Found(d)) = retry {
                return Ok(lsp_answer(d, LspReadiness::WarmingUp, true, elapsed_ms, "lsp_retry"));
            }
            match grep {
                Some(g) => Ok(grep_answer(g, DegradedReason::LspWarmupGrepFallback, elapsed_ms)),
                None => Err(
                    DefinitionError::SymbolNotFound {
                        semantic_path: string_of(semantic_path),
                        did_you_mean,
                        retry_after_seconds: if warm_start_complete {
                            None
                        } else {
                            Some(10u32)
                        },
                    },
                ),
            }
        },
        GotoOutcome::NoLsp => match grep {
            Some(g) => Ok(grep_answer(g, DegradedReason::NoLspGrepFallback, elapsed_ms)),
            None => Err(DefinitionError::NoLspAvailable { language: string_of(language) }),
        },
        GotoOutcome::Timeout => match grep {
            Some(g) => Ok(grep_answer(g, DegradedReason::LspTimeoutGrepFallback, elapsed_ms)),
            None => Err(
                DefinitionError::LspError {
                    message: string_of("LSP timed out and grep fallback found no match"),
                },
            ),
        },
        GotoOutcome::Failed(e) => match grep {
            Some(g) => Ok(grep_answer(g, DegradedReason::LspErrorGrepFallback, elapsed_ms)),
            None => Err(DefinitionError::LspError { message: e }),
        },
    }
}

/// The preview shown, or `(no preview)` when it is empty.
pub open spec fn preview_or_placeholder(p: Seq<char>) -> Seq<char> {
    if p.len() == 0 {
        "(no preview)"@
    } else {
        p
    }
}

/// The text answer of the definition tool; `notice` is the degradation
/// notice for the answer's reason.
pub open spec fn spec_definition_text(d: GetDefinitionResponse, notice: Seq<char>) -> Seq<char> {
    let ms = match d.duration_ms {
        Some(x) => x,
        None => 0,
    };
    if d.degraded {
        notice + "\n"@ + d.file@ + ":L"@ + decimal(d.line as nat) + " — "@ + preview_or_placeholder(
            d.preview@,
        ) + "\n[completed in "@ + decimal(ms as nat) + "ms]"@
    } else {
        d.file@ + ":L"@ + decimal(d.line as nat) + " col:"@ + decimal(d.column as nat) + " — "@
            + preview_or_placeholder(d.preview@) + "\n[completed in "@ + decimal(ms as nat)
            + "ms]"@
    }
}

/// The text answer of the definition tool: the notice when degraded, the
/// location (with column when not degraded), the preview and the elapsed
/// time.
pub fn definition_text(d: &GetDefinitionResponse, notice: &str) -> (s: String)
    ensures
        s@ == spec_definition_text(*d, notice@),
{
    let ms: u64 = match d.duration_ms {
        Some(x) => x,
        None => 0,
    };
    let mut s = String::new();
    if d.degraded {
        push_str(&mut s, notice);
        push_str(&mut s, "\n");
    }
    push_str(&mut s, d.file.as_str());
    push_str(&mut s, ":L");
    push_decimal(&mut s, d.line as u64);
    if !d.degraded {
        push_str(&mut s, " col:");
        push_decimal(&mut s, d.column as u64);
    }
    push_str(&mut s, " — ");
    if d.preview.as_str().is_empty() {
        push_str(&mut s, "(no preview)");
    } else {
        push_str(&mut s, d.preview.as_str());
    }
    push_str(&mut s, "\n[completed in ");
    push_decimal(&mut s, ms);
    push_str(&mut s, "ms]");
    assert(s@ =~= spec_definition_text(*d, notice@));
    s
}

} // verus!
