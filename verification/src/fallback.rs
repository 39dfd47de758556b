//! The text-search fallbacks of the trace tool: which search matches become
//! heuristic callers, and how heuristic callees are collected one candidate
//! at a time.

use vstd::prelude::*;
use crate::bfs::{passes_filter, FileSet, ImpactReference};
use crate::definition::SearchMatch;
use crate::paths::{
    is_source_file, is_workspace_file, paths_equal, same_path, spec_is_source_file,
    spec_is_workspace_file,
};
use crate::text::{push_str, string_of};

verus! {

/// The most heuristic callers kept from one text search.
pub const GREP_REFERENCE_LIMIT: usize = 10;

/// `usize::try_from(line).unwrap_or(usize::MAX)`.
pub open spec fn line_or_max(line: u64) -> usize {
    if line <= usize::MAX {
        line as usize
    } else {
        usize::MAX
    }
}

/// A match that may stand for a caller: a source file other than the one
/// that defines the symbol.
pub open spec fn is_reference_candidate(m: SearchMatch, definition_path: Seq<char>) -> bool {
    spec_is_source_file(m.file@) && !same_path(m.file@, definition_path)
}

/// The matches that may stand for callers, in order.
pub open spec fn reference_candidates(ms: Seq<SearchMatch>, definition_path: Seq<char>) -> Seq<
    SearchMatch,
>
    decreases ms.len(),
{
    if ms.len() == 0 {
        Seq::empty()
    } else {
        let before = reference_candidates(ms.drop_last(), definition_path);
        if is_reference_candidate(ms.last(), definition_path) {
            before.push(ms.last())
        } else {
            before
        }
    }
}

/// The candidates that are kept: the first `GREP_REFERENCE_LIMIT` of them.
pub open spec fn kept_references(ms: Seq<SearchMatch>, definition_path: Seq<char>) -> Seq<
    SearchMatch,
> {
    let c = reference_candidates(ms, definition_path);
    if c.len() <= GREP_REFERENCE_LIMIT {
        c
    } else {
        c.take(GREP_REFERENCE_LIMIT as int)
    }
}

/// The qualified path given to a heuristic caller: the match's enclosing
/// symbol, else `file::symbol`.
pub open spec fn heuristic_path(m: SearchMatch, symbol_name: Seq<char>) -> Seq<char> {
    match m.enclosing_semantic_path {
        Some(p) => p@,
        None => m.file@ + "::"@ + symbol_name,
    }
}

/// `r` reports match `m` as a text-search result under `semantic_path`,
/// in direction `direction`.
pub open spec fn heuristic_reference_fits(
    r: ImpactReference,
    m: SearchMatch,
    semantic_path: Seq<char>,
    direction: Seq<char>,
) -> bool {
    &&& r.semantic_path@ == semantic_path
    &&& r.file@ == m.file@
    &&& r.line == line_or_max(m.line)
    &&& r.snippet@ == m.content@
    &&& r.direction@ == direction
    &&& r.depth == 0
    &&& r.confidence matches Some(c) && c@ == "heuristic"@
}

/// The files of a sequence of matches, as a set.
pub open spec fn match_files(ms: Seq<SearchMatch>) -> Set<Seq<char>> {
    Set::new(|f: Seq<char>| exists|i: int| 0 <= i < ms.len() && ms[i].file@ == f)
}

proof fn lemma_candidates_split(ms: Seq<SearchMatch>, d: Seq<char>, j: int)
    requires
        0 <= j <= ms.len(),
    ensures
        reference_candidates(ms, d) == reference_candidates(ms.take(j), d)
            + reference_candidates(ms.skip(j), d),
    decreases ms.len(),
{
    if j == ms.len() {
        assert(ms.take(j) =~= ms);
        assert(ms.skip(j) =~= Seq::<SearchMatch>::empty());
        assert(reference_candidates(ms, d) + Seq::<SearchMatch>::empty() =~= reference_candidates(
            ms,
            d,
        ));
    } else {
        let dl = ms.drop_last();
        lemma_candidates_split(dl, d, j);
        assert(dl.take(j) =~= ms.take(j));
        assert(ms.skip(j).drop_last() =~= dl.skip(j));
        assert(ms.skip(j).last() == ms.last());
        let a = reference_candidates(ms.take(j), d);
        let b = reference_candidates(dl.skip(j), d);
        assert((a + b).push(ms.last()) =~= a + b.push(ms.last()));
    }
}

fn heuristic_reference(m: SearchMatch, semantic_path: String, direction: &str) -> (r:
    ImpactReference)
    ensures
        heuristic_reference_fits(r, m, semantic_path@, direction@),
{
    let line: usize = if m.line <= usize::MAX as u64 {
        m.line as usize
    } else {
        usize::MAX
    };
    ImpactReference {
        semantic_path,
        file: m.file,
        line,
        snippet: m.content,
        direction: string_of(direction),
        depth: 0,
        confidence: Some(string_of("heuristic")),
    }
}

/// `r` reports match `m` as a caller found by text search for
/// `symbol_name`: under the match's enclosing symbol and marked heuristic
/// when `enriched`, else under `file::symbol` with no confidence.
pub open spec fn fallback_reference_fits(
    r: ImpactReference,
    m: SearchMatch,
    symbol_name: Seq<char>,
    enriched: bool,
) -> bool {
    if enriched {
        heuristic_reference_fits(r, m, heuristic_path(m, symbol_name), "incoming_heuristic"@)
    } else {
        &&& r.semantic_path@ == m.file@ + "::"@ + symbol_name
        &&& r.file@ == m.file@
        &&& r.line == line_or_max(m.line)
        &&& r.snippet@ == m.content@
        &&& r.direction@ == "incoming_heuristic"@
        &&& r.depth == 0
        &&& r.confidence is None
    }
}

/// The callers kept from the matches, in order, as `fallback_reference_fits`
/// describes them; their files join `files`.
fn collect_references(
    matches: Vec<SearchMatch>,
    symbol_name: &str,
    definition_path: &str,
    files: &mut FileSet,
    enriched: bool,
) -> (refs: Vec<ImpactReference>)
    requires
        old(files).no_repeats(),
    ensures
        final(files).no_repeats(),
        final(files).view_set() == old(files).view_set().union(
            match_files(kept_references(matches@, definition_path@)),
        ),
        refs.len() == kept_references(matches@, definition_path@).len(),
        forall|i: int|
            0 <= i < refs.len() ==> fallback_reference_fits(
                #[trigger] refs@[i],
                kept_references(matches@, definition_path@)[i],
                symbol_name@,
                enriched,
            ),
{
    let ghost ms = matches@;
    let ghost d = definition_path@;
    let ghost files0 = files.view_set();
    let mut refs: Vec<ImpactReference> = Vec::new();
    let ghost mut taken: Seq<SearchMatch> = Seq::empty();
    let mut rest = matches;
    let ghost mut i: int = 0;
    assert(ms.take(0) =~= Seq::<SearchMatch>::empty());
    assert(ms.skip(0) =~= ms);
    assert(files0.union(match_files(taken)) =~= files0);
    while rest.len() > 0 && refs.len() < GREP_REFERENCE_LIMIT
        invariant
            d == definition_path@,
            0 <= i <= ms.len(),
            rest@ == ms.skip(i),
            reference_candidates(ms.take(i), d) == taken,
            refs.len() == taken.len() <= GREP_REFERENCE_LIMIT,
            files.no_repeats(),
            files.view_set() == files0.union(match_files(taken)),
            forall|k: int|
                0 <= k < taken.len() ==> fallback_reference_fits(
                    #[trigger] refs@[k],
                    taken[k],
                    symbol_name@,
                    enriched,
                ),
        decreases rest.len(),
    {
        let m = rest.remove(0);
        let ghost taken0 = taken;
        proof {
            assert(m == ms.skip(i)[0]);
            assert(m == ms[i]);
            assert(rest@ =~= ms.skip(i + 1));
            assert(ms.take(i + 1).drop_last() =~= ms.take(i));
            assert(ms.take(i + 1).last() == ms[i]);
            i = i + 1;
        }
        let keep = is_source_file(m.file.as_str()) && !paths_equal(m.file.as_str(), definition_path);
        proof {
            assert(keep == is_reference_candidate(m, d));
            assert(reference_candidates(ms.take(i), d) == if keep {
                taken0.push(m)
            } else {
                taken0
            });
        }
        if keep {
            files.insert(&m.file);
            let plain = {
                let mut s = m.file.clone();
                push_str(&mut s, "::");
                push_str(&mut s, symbol_name);
                s
            };
            let semantic_path = if !enriched {
                plain
            } else {
                match &m.enclosing_semantic_path {
                    Some(p) => p.clone(),
                    None => plain,
                }
            };
            proof {
                let t1 = taken.push(m);
                assert(match_files(t1) =~= match_files(taken).insert(m.file@)) by {
                    assert forall|f: Seq<char>| match_files(t1).contains(f) implies match_files(
                        taken,
                    ).insert(m.file@).contains(f) by {
                        let k = choose|k: int| 0 <= k < t1.len() && t1[k].file@ == f;
                        if k < taken.len() {
                            assert(taken[k] == t1[k]);
                        }
                    }
                    assert forall|f: Seq<char>| match_files(taken).insert(m.file@).contains(
                        f,
                    ) implies match_files(t1).contains(f) by {
                        if f == m.file@ {
                            assert(t1[taken.len() as int] == m);
                        } else {
                            let k = choose|k: int| 0 <= k < taken.len() && taken[k].file@ == f;
                            assert(t1[k] == taken[k]);
                        }
                    }
                }
                taken = t1;
            }
            if enriched {
                refs.push(heuristic_reference(m, semantic_path, "incoming_heuristic"));
            } else {
                refs.push(plain_reference(m, semantic_path));
            }
        }
        assert(reference_candidates(ms.take(i), d) == taken);
    }
    proof {
        lemma_candidates_split(ms, d, i);
        if refs.len() < GREP_REFERENCE_LIMIT {
            assert(ms.skip(i).len() == 0);
            assert(ms.take(i) =~= ms);
        }
    }
    assert(kept_references(ms, d) =~= taken);
    refs
}

fn plain_reference(m: SearchMatch, semantic_path: String) -> (r: ImpactReference)
    ensures
        r.semantic_path@ == semantic_path@,
        r.file@ == m.file@,
        r.line == line_or_max(m.line),
        r.snippet@ == m.content@,
        r.direction@ == "incoming_heuristic"@,
        r.depth == 0,
        r.confidence is None,
{
    let line: usize = if m.line <= usize::MAX as u64 {
        m.line as usize
    } else {
        usize::MAX
    };
    ImpactReference {
        semantic_path,
        file: m.file,
        line,
        snippet: m.content,
        direction: string_of("incoming_heuristic"),
        depth: 0,
        confidence: None,
    }
}

/// The heuristic callers among the matches of a whole-word search for
/// `symbol_name`: each match in a source file other than `definition_path`,
/// the first `GREP_REFERENCE_LIMIT` of them, in order, or `None` when there
/// is none. The files of the callers kept join `files`.
pub fn select_reference_matches(
    matches: Vec<SearchMatch>,
    symbol_name: &str,
    definition_path: &str,
    files: &mut FileSet,
) -> (r: Option<Vec<ImpactReference>>)
    requires
        old(files).no_repeats(),
    ensures
        final(files).no_repeats(),
        final(files).view_set() == old(files).view_set().union(
            match_files(kept_references(matches@, definition_path@)),
        ),
        ({
            let kept = kept_references(matches@, definition_path@);
            match r {
                None => kept.len() == 0,
                Some(refs) => kept.len() > 0 && refs.len() == kept.len() && forall|i: int|
                    0 <= i < kept.len() ==> heuristic_reference_fits(
                        #[trigger] refs[i],
                        kept[i],
                        heuristic_path(kept[i], symbol_name@),
                        "incoming_heuristic"@,
                    ),
            }
        }),
{
    let ghost kept = kept_references(matches@, definition_path@);
    let refs = collect_references(matches, symbol_name, definition_path, files, true);
    if refs.len() == 0 {
        None
    } else {
        assert forall|i: int| 0 <= i < kept.len() implies heuristic_reference_fits(
            #[trigger] refs@[i],
            kept[i],
            heuristic_path(kept[i], symbol_name@),
            "incoming_heuristic"@,
        ) by {
            assert(fallback_reference_fits(refs@[i], kept[i], symbol_name@, true));
        }
        Some(refs)
    }
}

/// The callers reported by the impact-analysis tool from the matches of a
/// plain-text search for `symbol_name`: `None` when the search matched
/// nothing, else each match in a source file other than `definition_path`,
/// the first `GREP_REFERENCE_LIMIT` of them, in order, under `file::symbol`.
/// The files of the callers kept join `files`.
pub fn select_impact_matches(
    matches: Vec<SearchMatch>,
    symbol_name: &str,
    definition_path: &str,
    files: &mut FileSet,
) -> (r: Option<Vec<ImpactReference>>)
    requires
        old(files).no_repeats(),
    ensures
        final(files).no_repeats(),
        final(files).view_set() == old(files).view_set().union(
            match_files(kept_references(matches@, definition_path@)),
        ),
        ({
            let kept = kept_references(matches@, definition_path@);
            match r {
                None => matches.len() == 0,
                Some(refs) => matches.len() > 0 && refs.len() == kept.len() && forall|i: int|
                    0 <= i < kept.len() ==> fallback_reference_fits(
                        #[trigger] refs[i],
                        kept[i],
                        symbol_name@,
                        false,
                    ),
            }
        }),
{
    if matches.len() == 0 {
        proof {
            let k = kept_references(matches@, definition_path@);
            assert(reference_candidates(matches@, definition_path@) =~= Seq::<SearchMatch>::empty());
            assert(match_files(k) =~= Set::<Seq<char>>::empty());
            assert(files.view_set().union(match_files(k)) =~= files.view_set());
        }
        return None;
    }
    let refs = collect_references(matches, symbol_name, definition_path, files, false);
    Some(refs)
}

/// Whether a match found for a callee may be reported: with `project_only`
/// it must be a workspace source file, and it must not be the file that
/// defines the traced symbol.
pub fn outgoing_match_allowed(file: &str, definition_path: &str, project_only: bool) -> (r: bool)
    ensures
        r == (passes_filter(project_only, file@) && !same_path(file@, definition_path@)),
{
    if project_only && (!is_source_file(file) || !is_workspace_file(file)) {
        return false;
    }
    !paths_equal(file, definition_path)
}

/// Heuristic callees, gathered one call candidate at a time: each candidate
/// is resolved by a text search, and the first match that is allowed and
/// whose qualified path is new becomes a callee.
pub struct OutgoingCollector {
    pub refs: Vec<ImpactReference>,
    pub max_deps: usize,
    /// A candidate is being resolved and has not yet given a callee.
    pub open: bool,
    /// The file that defines the traced symbol; its matches are no callees.
    pub definition_path: String,
    /// Whether callees must lie in workspace source files.
    pub project_only: bool,
}

/// `refs` holds no qualified path twice.
pub open spec fn distinct_paths(refs: Seq<ImpactReference>) -> bool {
    forall|i: int, j: int|
        0 <= i < j < refs.len() ==> refs[i].semantic_path@ != refs[j].semantic_path@
}

/// Some reference in `refs` has the qualified path `p`.
pub open spec fn has_path(refs: Seq<ImpactReference>, p: Seq<char>) -> bool {
    exists|i: int| 0 <= i < refs.len() && refs[i].semantic_path@ == p
}

fn lists_path(refs: &Vec<ImpactReference>, p: &String) -> (r: bool)
    ensures
        r == has_path(refs@, p@),
{
    let mut i: usize = 0;
    while i < refs.len()
        invariant
            i <= refs.len(),
            forall|j: int| 0 <= j < i ==> refs@[j].semantic_path@ != p@,
        decreases refs.len() - i,
    {
        if refs[i].semantic_path.eq(p) {
            return true;
        }
        i = i + 1;
    }
    false
}

impl OutgoingCollector {
    pub open spec fn wf(&self) -> bool {
        &&& self.refs.len() <= self.max_deps
        &&& self.open ==> self.refs.len() < self.max_deps
        &&& distinct_paths(self.refs@)
        &&& forall|i: int|
            0 <= i < self.refs.len() ==> {
                let r = #[trigger] self.refs@[i];
                &&& passes_filter(self.project_only, r.file@)
                &&& !same_path(r.file@, self.definition_path@)
                &&& r.direction@ == "outgoing_heuristic"@
                &&& r.depth == 0
                &&& r.confidence matches Some(c) && c@ == "heuristic"@
            }
    }

    /// A collector that keeps at most `max_results` callees of the symbol
    /// defined in `definition_path`, with `project_only` only in workspace
    /// source files.
    pub fn new(max_results: u32, definition_path: String, project_only: bool) -> (r:
        OutgoingCollector)
        ensures
            r.wf(),
            r.refs.len() == 0,
            r.max_deps == max_results,
            !r.open,
            r.definition_path == definition_path,
            r.project_only == project_only,
    {
        OutgoingCollector {
            refs: Vec::new(),
            max_deps: max_results as usize,
            open: false,
            definition_path,
            project_only,
        }
    }

    /// Whether a match in `file` may become a callee.
    pub fn allows(&self, file: &str) -> (r: bool)
        ensures
            r == (passes_filter(self.project_only, file@) && !same_path(
                file@,
                self.definition_path@,
            )),
    {
        outgoing_match_allowed(file, self.definition_path.as_str(), self.project_only)
    }

    /// Starts the next candidate; `false` when the budget is spent and the
    /// remaining candidates are skipped.
    pub fn begin_candidate(&mut self) -> (r: bool)
        requires
            old(self).wf(),
        ensures
            final(self).wf(),
            r == (old(self).refs.len() < old(self).max_deps),
            final(self).open == r,
            final(self).refs@ == old(self).refs@,
            final(self).max_deps == old(self).max_deps,
    {
        self.open = self.refs.len() < self.max_deps;
        self.open
    }

    /// Whether the current candidate still waits for a callee.
    pub fn candidate_open(&self) -> (r: bool)
        ensures
            r == self.open,
    {
        self.open
    }

    /// Offers match `m`, whose enclosing symbol resolved to `semantic_path`,
    /// as the current candidate's callee. It is taken when its file is
    /// allowed and no callee with that path is listed yet; then its file
    /// joins `files` and the candidate is closed.
    pub fn record(&mut self, m: SearchMatch, semantic_path: String, files: &mut FileSet) -> (added:
        bool)
        requires
            old(self).wf(),
            old(self).open,
            old(files).no_repeats(),
        ensures
            final(self).wf(),
            final(files).no_repeats(),
            final(self).max_deps == old(self).max_deps,
            final(self).definition_path == old(self).definition_path,
            final(self).project_only == old(self).project_only,
            added == (passes_filter(old(self).project_only, m.file@) && !same_path(
                m.file@,
                old(self).definition_path@,
            ) && !has_path(old(self).refs@, semantic_path@)),
            added ==> {
                &&& final(self).refs.len() == old(self).refs.len() + 1
                &&& final(self).refs@.drop_last() == old(self).refs@
                &&& heuristic_reference_fits(
                    final(self).refs@.last(),
                    m,
                    semantic_path@,
                    "outgoing_heuristic"@,
                )
                &&& !final(self).open
                &&& final(files).view_set() == old(files).view_set().insert(m.file@)
            },
            !added ==> {
                &&& final(self).refs@ == old(self).refs@
                &&& final(self).open
                &&& final(files).view_set() == old(files).view_set()
            },
    {
        if !self.allows(m.file.as_str()) || lists_path(&self.refs, &semantic_path) {
            return false;
        }
        files.insert(&m.file);
        let ghost before = self.refs@;
        let r = heuristic_reference(m, semantic_path, "outgoing_heuristic");
        self.refs.push(r);
        self.open = false;
        assert(self.refs@.drop_last() =~= before);
        true
    }

    /// The callees found, or `None` when there is none.
    pub fn finish(self) -> (r: Option<Vec<ImpactReference>>)
        ensures
            match r {
                None => self.refs.len() == 0,
                Some(v) => self.refs.len() > 0 && v@ == self.refs@,
            },
    {
        if self.refs.len() == 0 {
            None
        } else {
            Some(self.refs)
        }
    }
}

/// Whatever the searches return, a collector never lists more callees than
/// its budget, never lists a qualified path twice, never lists a callee in
/// the file that defines the traced symbol or (with `project_only`) outside
/// the workspace's source files, and reports each callee as a heuristic
/// outgoing reference found at depth 0.
pub proof fn law_outgoing_collector_bounded(c: OutgoingCollector)
    requires
        c.wf(),
    ensures
        c.refs.len() <= c.max_deps,
        distinct_paths(c.refs@),
        forall|i: int|
            0 <= i < c.refs.len() ==> {
                let r = #[trigger] c.refs@[i];
                &&& r.depth == 0
                &&& !same_path(r.file@, c.definition_path@)
                &&& (c.project_only ==> spec_is_source_file(r.file@) && spec_is_workspace_file(
                    r.file@,
                ))
            },
{
    assert forall|i: int| 0 <= i < c.refs.len() implies {
        let r = #[trigger] c.refs@[i];
        &&& r.depth == 0
        &&& !same_path(r.file@, c.definition_path@)
        &&& (c.project_only ==> spec_is_source_file(r.file@) && spec_is_workspace_file(r.file@))
    } by {
        let r = c.refs@[i];
    }
}

proof fn lemma_candidates_from(ms: Seq<SearchMatch>, d: Seq<char>)
    ensures
        reference_candidates(ms, d).len() <= ms.len(),
        forall|k: int|
            0 <= k < reference_candidates(ms, d).len() ==> is_reference_candidate(
                #[trigger] reference_candidates(ms, d)[k],
                d,
            ) && ms.contains(reference_candidates(ms, d)[k]),
    decreases ms.len(),
{
    if ms.len() > 0 {
        let dl = ms.drop_last();
        lemma_candidates_from(dl, d);
        let before = reference_candidates(dl, d);
        assert forall|k: int| 0 <= k < before.len() implies ms.contains(#[trigger] before[k]) by {
            let j = choose|j: int| 0 <= j < dl.len() && dl[j] == before[k];
            assert(ms[j] == dl[j]);
        }
        assert(ms[ms.len() - 1] == ms.last());
    }
}

/// The text-search callers kept are at most `GREP_REFERENCE_LIMIT` matches
/// of the search, each in a source file other than the definition's.
pub proof fn law_reference_fallback_filtered(ms: Seq<SearchMatch>, definition_path: Seq<char>)
    ensures
        kept_references(ms, definition_path).len() <= GREP_REFERENCE_LIMIT,
        kept_references(ms, definition_path).len() <= ms.len(),
        forall|k: int|
            0 <= k < kept_references(ms, definition_path).len() ==> {
                let m = #[trigger] kept_references(ms, definition_path)[k];
                &&& ms.contains(m)
                &&& spec_is_source_file(m.file@)
                &&& !same_path(m.file@, definition_path)
            },
{
    lemma_candidates_from(ms, definition_path);
    let c = reference_candidates(ms, definition_path);
    let kept = kept_references(ms, definition_path);
    assert forall|k: int| 0 <= k < kept.len() implies {
        let m = #[trigger] kept[k];
        &&& ms.contains(m)
        &&& spec_is_source_file(m.file@)
        &&& !same_path(m.file@, definition_path)
    } by {
        assert(kept[k] == c[k]);
        assert(is_reference_candidate(c[k], definition_path));
    }
}

} // verus!
