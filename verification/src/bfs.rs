//! Breadth-first traversal of a call hierarchy, one language-server answer
//! at a time: the traversal decides, the caller asks the server.

use vstd::prelude::*;
use crate::paths::{is_source_file, is_workspace_file, spec_is_source_file, spec_is_workspace_file};
use crate::text::string_of;

verus! {

/// Direction of a call-hierarchy traversal.
#[derive(PartialEq, Eq, Structural, Clone, Copy, Debug)]
pub enum CallDirection {
    /// Callers of the symbol.
    Incoming,
    /// Callees of the symbol.
    Outgoing,
}

/// What the traversal reads of a call-hierarchy item.
pub struct CallItem {
    pub name: String,
    pub detail: Option<String>,
    pub file: String,
    pub line: u32,
}

/// A caller or callee found by the traversal or by a text-search fallback.
pub struct ImpactReference {
    pub semantic_path: String,
    pub file: String,
    pub line: usize,
    pub snippet: String,
    pub direction: String,
    pub depth: usize,
    pub confidence: Option<String>,
}

/// A set of file paths, kept without repeats.
pub struct FileSet {
    pub files: Vec<String>,
}

impl FileSet {
    pub open spec fn view_set(&self) -> Set<Seq<char>> {
        Set::new(|f: Seq<char>| exists|i: int| 0 <= i < self.files.len() && self.files[i]@ == f)
    }

    pub open spec fn no_repeats(&self) -> bool {
        forall|i: int, j: int|
            0 <= i < j < self.files.len() ==> self.files[i]@ != self.files[j]@
    }

    pub fn new() -> (r: FileSet)
        ensures
            r.files.len() == 0,
            r.no_repeats(),
            r.view_set() == Set::<Seq<char>>::empty(),
    {
        let r = FileSet { files: Vec::new() };
        assert(r.view_set() =~= Set::<Seq<char>>::empty());
        r
    }

    /// Number of distinct files.
    pub fn len(&self) -> (n: usize)
        requires
            self.no_repeats(),
        ensures
            n == self.view_set().len(),
    {
        proof {
            self.lemma_len();
        }
        self.files.len()
    }

    proof fn lemma_len(&self)
        requires
            self.no_repeats(),
        ensures
            self.view_set().finite(),
            self.view_set().len() == self.files.len(),
        decreases self.files.len(),
    {
        let s = self.files@.map_values(|f: String| f@);
        assert(s.no_duplicates()) by {
            assert forall|i: int, j: int| 0 <= i < s.len() && 0 <= j < s.len() && i != j implies s[i]
                != s[j] by {
                if i < j {
                } else {
                }
            }
        }
        assert(self.view_set() =~= s.to_set()) by {
            assert forall|f: Seq<char>| self.view_set().contains(f) implies s.to_set().contains(f) by {
                let i = choose|i: int| 0 <= i < self.files.len() && self.files[i]@ == f;
                assert(s[i] == f);
            }
            assert forall|f: Seq<char>| s.to_set().contains(f) implies self.view_set().contains(f) by {
                let i = choose|i: int| 0 <= i < s.len() && s[i] == f;
                assert(self.files[i]@ == f);
            }
        }
        s.unique_seq_to_set();
    }

    /// Adds `f` unless it is already there.
    pub fn insert(&mut self, f: &String)
        requires
            old(self).no_repeats(),
        ensures
            final(self).no_repeats(),
            final(self).view_set() == old(self).view_set().insert(f@),
    {
        let mut i: usize = 0;
        while i < self.files.len()
            invariant
                i <= self.files.len(),
                self.no_repeats(),
                self.files@ == old(self).files@,
                forall|j: int| 0 <= j < i ==> self.files[j]@ != f@,
            decreases self.files.len() - i,
        {
            if self.files[i].eq(f) {
                assert(self.view_set() =~= self.view_set().insert(f@));
                return;
            }
            i = i + 1;
        }
        let ghost before = *self;
        self.files.push(f.clone());
        assert(self.view_set() =~= before.view_set().insert(f@)) by {
            assert forall|g: Seq<char>| #![auto] self.view_set().contains(g) implies before.view_set().insert(f@).contains(g) by {
                let k = choose|k: int| 0 <= k < self.files.len() && self.files[k]@ == g;
                if k < before.files.len() {
                    assert(before.files[k]@ == g);
                }
            }
            assert forall|g: Seq<char>| #![auto] before.view_set().insert(f@).contains(g) implies self.view_set().contains(g) by {
                if g == f@ {
                    assert(self.files[before.files.len() as int]@ == g);
                } else {
                    let k = choose|k: int| 0 <= k < before.files.len() && before.files[k]@ == g;
                    assert(self.files[k]@ == g);
                }
            }
        }
    }
}

/// Two items name the same place: same file, line and name.
pub open spec fn same_key(a: CallItem, b: CallItem) -> bool {
    a.file@ == b.file@ && a.line == b.line && a.name@ == b.name@
}

/// A file the traversal may report: any file, or with `project_only` a
/// workspace source file.
pub open spec fn passes_filter(project_only: bool, file: Seq<char>) -> bool {
    !project_only || (spec_is_source_file(file) && spec_is_workspace_file(file))
}

pub open spec fn direction_text(d: CallDirection) -> Seq<char> {
    match d {
        CallDirection::Incoming => "incoming"@,
        CallDirection::Outgoing => "outgoing"@,
    }
}

/// The snippet shown for an item: its detail, else its name.
pub open spec fn snippet_of(item: CallItem) -> Seq<char> {
    match item.detail {
        Some(d) => d@,
        None => item.name@,
    }
}

/// Reference `r` reports item `item`, found at depth `depth` (one below the
/// item it was reached from).
pub open spec fn reference_fits(
    r: ImpactReference,
    item: CallItem,
    depth: u32,
    direction: CallDirection,
) -> bool {
    &&& r.file@ == item.file@
    &&& r.line == item.line
    &&& r.snippet@ == snippet_of(item)
    &&& r.direction@ == direction_text(direction)
    &&& r.depth == depth - 1
    &&& r.confidence matches Some(c) && c@ == "lsp"@
}

/// What to do with one call returned by the server.
#[derive(PartialEq, Eq, Structural, Clone, Copy, Debug)]
pub enum CallDecision {
    /// The reference budget is spent: ignore the rest of this answer.
    Stop,
    /// Filtered out or already seen.
    Skip,
    /// A new item: resolve its qualified path and record it.
    New,
}

/// Wall-clock limit of one traversal, in seconds.
pub const BFS_TIMEOUT_SECS: u64 = 30;

/// Consecutive server failures after which a traversal gives up.
pub const BFS_CONSECUTIVE_FAILURE_LIMIT: u32 = 2;

/// State of a breadth-first traversal of the call hierarchy from one item.
///
/// The discovered items are kept in discovery order, which is also the
/// queue order: the items from `head` on are still queued.
pub struct CallHierarchyBfs {
    pub direction: CallDirection,
    pub max_depth: u32,
    pub project_only: bool,
    pub budget: u32,
    pub nodes: Vec<(CallItem, u32)>,
    pub head: usize,
    pub expanding: bool,
    pub finished: bool,
    pub references: Vec<ImpactReference>,
    pub remaining: u32,
    pub max_depth_reached: u32,
    pub consecutive_failures: u32,
}

impl CallHierarchyBfs {
    /// The traversal's invariant.
    pub open spec fn wf(&self) -> bool {
        &&& self.nodes.len() >= 1
        &&& self.head <= self.nodes.len()
        &&& self.nodes[0].1 == 0
        &&& (self.head == 0 ==> self.nodes.len() == 1 && !self.expanding)
        &&& (self.expanding ==> self.head >= 1 && self.nodes[self.head - 1].1 < self.max_depth
            && self.consecutive_failures < BFS_CONSECUTIVE_FAILURE_LIMIT)
        &&& forall|k: int|
            1 <= k < self.nodes.len() ==> passes_filter(
                self.project_only,
                (#[trigger] self.nodes[k]).0.file@,
            )
        &&& forall|i: int, j: int|
            0 <= i < j < self.nodes.len() ==> !same_key(self.nodes[i].0, self.nodes[j].0)
        &&& forall|k: int|
            1 <= k < self.nodes.len() ==> 1 <= (#[trigger] self.nodes[k]).1 <= self.max_depth
        &&& forall|i: int, j: int|
            0 <= i <= j < self.nodes.len() ==> self.nodes[i].1 <= self.nodes[j].1
        &&& (self.head >= 1 ==> forall|k: int|
            0 <= k < self.nodes.len() ==> (#[trigger] self.nodes[k]).1 <= self.nodes[self.head
                - 1].1 + 1)
        &&& self.references.len() == self.nodes.len() - 1
        &&& forall|k: int|
            0 <= k < self.references.len() ==> reference_fits(
                #[trigger] self.references[k],
                self.nodes[k + 1].0,
                self.nodes[k + 1].1,
                self.direction,
            )
        &&& self.references.len() + self.remaining == self.budget
        &&& forall|k: int| 0 <= k < self.head ==> (#[trigger] self.nodes[k]).1 <= self.max_depth_reached
        &&& ((self.head == 0 && self.max_depth_reached == 0) || exists|k: int|
            0 <= k < self.head && (#[trigger] self.nodes[k]).1 == self.max_depth_reached)
        &&& self.consecutive_failures <= BFS_CONSECUTIVE_FAILURE_LIMIT
    }

    /// Starts a traversal from `initial`, with a budget of `remaining`
    /// references; the initial item's file counts as referenced.
    pub fn new(
        initial: CallItem,
        direction: CallDirection,
        max_depth: u32,
        project_only: bool,
        remaining: u32,
        files: &mut FileSet,
    ) -> (r: CallHierarchyBfs)
        requires
            old(files).no_repeats(),
        ensures
            r.wf(),
            r.nodes@ == seq![(initial, 0u32)],
            r.head == 0,
            !r.finished,
            r.references.len() == 0,
            r.remaining == remaining,
            r.budget == remaining,
            r.direction == direction,
            r.max_depth == max_depth,
            r.project_only == project_only,
            final(files).no_repeats(),
            final(files).view_set() == old(files).view_set().insert(initial.file@),
    {
        files.insert(&initial.file);
        let mut nodes: Vec<(CallItem, u32)> = Vec::new();
        nodes.push((initial, 0));
        CallHierarchyBfs {
            direction,
            max_depth,
            project_only,
            budget: remaining,
            nodes,
            head: 0,
            expanding: false,
            finished: false,
            references: Vec::new(),
            remaining,
            max_depth_reached: 0,
            consecutive_failures: 0,
        }
    }

    /// Takes items off the queue, skipping those at the depth limit, and
    /// returns the index of the next item to expand; `None` when the queue is
    /// empty, the budget is spent, `deadline_passed`, or the server failed too
    /// often in a row.
    pub fn next(&mut self, deadline_passed: bool) -> (r: Option<usize>)
        requires
            old(self).wf(),
        ensures
            final(self).wf(),
            final(self).nodes@ == old(self).nodes@,
            final(self).references@ == old(self).references@,
            final(self).remaining == old(self).remaining,
            final(self).budget == old(self).budget,
            final(self).direction == old(self).direction,
            final(self).max_depth == old(self).max_depth,
            final(self).project_only == old(self).project_only,
            final(self).consecutive_failures == old(self).consecutive_failures,
            old(self).head <= final(self).head,
            old(self).finished ==> r is None && final(self).head == old(self).head,
            r is None ==> final(self).finished && !final(self).expanding,
            match r {
                Some(i) => {
                    &&& i + 1 == final(self).head
                    &&& final(self).expanding
                    &&& !final(self).finished
                    &&& final(self).nodes[i as int].1 < final(self).max_depth
                    &&& final(self).remaining > 0
                    &&& !deadline_passed
                    &&& final(self).consecutive_failures < BFS_CONSECUTIVE_FAILURE_LIMIT
                    &&& forall|k: int|
                        old(self).head <= k < i ==> (#[trigger] final(self).nodes[k]).1
                            >= final(self).max_depth
                },
                None => old(self).finished || {
                    let h = final(self).head;
                    let md = final(self).max_depth;
                    &&& forall|k: int|
                        old(self).head <= k < h - 1 ==> (#[trigger] final(self).nodes[k]).1 >= md
                    &&& ((h == final(self).nodes.len() && (h > old(self).head ==> final(self).nodes[h
                        - 1].1 >= md)) || (h > old(self).head && final(self).nodes[h - 1].1 < md && (
                    final(self).remaining == 0 || deadline_passed || final(self).consecutive_failures
                        >= BFS_CONSECUTIVE_FAILURE_LIMIT)))
                },
            },
    {
        self.expanding = false;
        if self.finished {
            return None;
        }
        let ghost h0 = self.head;
        while self.head < self.nodes.len()
            invariant
                self.wf(),
                !self.expanding,
                !self.finished,
                self.nodes@ == old(self).nodes@,
                self.references@ == old(self).references@,
                self.remaining == old(self).remaining,
                self.budget == old(self).budget,
                self.direction == old(self).direction,
                self.max_depth == old(self).max_depth,
                self.project_only == old(self).project_only,
                self.consecutive_failures == old(self).consecutive_failures,
                h0 == old(self).head,
                !old(self).finished,
                h0 <= self.head,
                forall|k: int| h0 <= k < self.head ==> (#[trigger] self.nodes[k]).1 >= self.max_depth,
            decreases self.nodes.len() - self.head,
        {
            let i = self.head;
            let depth = self.nodes[i].1;
            self.head = i + 1;
            if depth > self.max_depth_reached {
                self.max_depth_reached = depth;
            }
            if depth >= self.max_depth {
                continue;
            }
            if self.remaining == 0 || deadline_passed
                || self.consecutive_failures >= BFS_CONSECUTIVE_FAILURE_LIMIT {
                self.finished = true;
                return None;
            }
            self.expanding = true;
            return Some(i);
        }
        self.finished = true;
        None
    }

    /// The server failed to answer for the item being expanded.
    pub fn calls_failed(&mut self)
        requires
            old(self).wf(),
            old(self).expanding,
        ensures
            final(self).wf(),
            final(self).nodes@ == old(self).nodes@,
            final(self).references@ == old(self).references@,
            final(self).head == old(self).head,
            final(self).remaining == old(self).remaining,
            final(self).consecutive_failures == old(self).consecutive_failures + 1,
            !final(self).expanding,
            final(self).finished == old(self).finished,
    {
        self.consecutive_failures = self.consecutive_failures + 1;
        self.expanding = false;
    }

    /// The server answered for the item being expanded.
    pub fn calls_succeeded(&mut self)
        requires
            old(self).wf(),
        ensures
            final(self).wf(),
            final(self).nodes@ == old(self).nodes@,
            final(self).references@ == old(self).references@,
            final(self).head == old(self).head,
            final(self).remaining == old(self).remaining,
            final(self).expanding == old(self).expanding,
            final(self).finished == old(self).finished,
            final(self).consecutive_failures == 0,
    {
        self.consecutive_failures = 0;
    }

    /// Whether an item with the same key as `item` was already discovered.
    pub fn seen(&self, item: &CallItem) -> (r: bool)
        ensures
            r == exists|k: int| 0 <= k < self.nodes.len() && same_key(#[trigger] self.nodes[k].0, *item),
    {
        let mut k: usize = 0;
        while k < self.nodes.len()
            invariant
                k <= self.nodes.len(),
                forall|j: int| 0 <= j < k ==> !same_key(#[trigger] self.nodes[j].0, *item),
            decreases self.nodes.len() - k,
        {
            let n = &self.nodes[k].0;
            if n.line == item.line && n.file.eq(&item.file) && n.name.eq(&item.name) {
                return true;
            }
            k = k + 1;
        }
        false
    }

    /// Decides what to do with one call in the server's answer for the item
    /// being expanded; a call that passes the filter has its file counted as
    /// referenced.
    pub fn consider_call(&self, item: &CallItem, files: &mut FileSet) -> (r: CallDecision)
        requires
            self.wf(),
            old(files).no_repeats(),
        ensures
            final(files).no_repeats(),
            r == (if self.remaining == 0 {
                CallDecision::Stop
            } else if !passes_filter(self.project_only, item.file@) {
                CallDecision::Skip
            } else if exists|k: int|
                0 <= k < self.nodes.len() && same_key(#[trigger] self.nodes[k].0, *item) {
                CallDecision::Skip
            } else {
                CallDecision::New
            }),
            (self.remaining != 0 && passes_filter(self.project_only, item.file@))
                ==> final(files).view_set() == old(files).view_set().insert(item.file@),
            !(self.remaining != 0 && passes_filter(self.project_only, item.file@))
                ==> final(files).view_set() == old(files).view_set(),
    {
        if self.remaining == 0 {
            return CallDecision::Stop;
        }
        if self.project_only && (!is_source_file(item.file.as_str()) || !is_workspace_file(
            item.file.as_str(),
        )) {
            return CallDecision::Skip;
        }
        files.insert(&item.file);
        if self.seen(item) {
            CallDecision::Skip
        } else {
            CallDecision::New
        }
    }

    /// Records `item` as newly found from the item being expanded, under the
    /// qualified path `semantic_path`, and spends one unit of the budget; does
    /// nothing unless `consider_call` would call it new.
    pub fn record_new(&mut self, item: CallItem, semantic_path: String)
        requires
            old(self).wf(),
        ensures
            final(self).wf(),
            final(self).head == old(self).head,
            final(self).expanding == old(self).expanding,
            final(self).finished == old(self).finished,
            final(self).consecutive_failures == old(self).consecutive_failures,
            ({
                let added = old(self).expanding && old(self).remaining != 0 && passes_filter(
                    old(self).project_only,
                    item.file@,
                ) && !exists|k: int|
                    0 <= k < old(self).nodes.len() && same_key(
                        #[trigger] old(self).nodes[k].0,
                        item,
                    );
                if added {
                    &&& final(self).nodes@ == old(self).nodes@.push(
                        (item, (old(self).nodes[old(self).head - 1].1 + 1) as u32),
                    )
                    &&& final(self).references.len() == old(self).references.len() + 1
                    &&& final(self).references@.drop_last() == old(self).references@
                    &&& final(self).references@.last().semantic_path == semantic_path
                    &&& final(self).remaining == old(self).remaining - 1
                } else {
                    &&& final(self).nodes@ == old(self).nodes@
                    &&& final(self).references@ == old(self).references@
                    &&& final(self).remaining == old(self).remaining
                }
            }),
    {
        if !self.expanding || self.remaining == 0 {
            return;
        }
        if self.project_only && (!is_source_file(item.file.as_str()) || !is_workspace_file(
            item.file.as_str(),
        )) {
            return;
        }
        if self.seen(&item) {
            return;
        }
        let parent_depth = self.nodes[self.head - 1].1;
        let depth: u32 = parent_depth + 1;
        let snippet = match &item.detail {
            Some(d) => d.clone(),
            None => item.name.clone(),
        };
        let direction = match self.direction {
            CallDirection::Incoming => string_of("incoming"),
            CallDirection::Outgoing => string_of("outgoing"),
        };
        let reference = ImpactReference {
            semantic_path,
            file: item.file.clone(),
            line: item.line as usize,
            snippet,
            direction,
            depth: parent_depth as usize,
            confidence: Some(string_of("lsp")),
        };
        let ghost old_nodes = self.nodes@;
        let ghost old_refs = self.references@;
        self.nodes.push((item, depth));
        self.references.push(reference);
        self.remaining = self.remaining - 1;
        proof {
            assert(self.references@.drop_last() =~= old_refs);
            assert forall|i: int, j: int|
                0 <= i < j < self.nodes.len() implies !same_key(self.nodes[i].0, self.nodes[j].0) by {
                if j == self.nodes.len() - 1 {
                    assert(self.nodes[i] == old_nodes[i]);
                } else {
                    assert(self.nodes[i] == old_nodes[i] && self.nodes[j] == old_nodes[j]);
                }
            }
            assert forall|k: int|
                0 <= k < self.references.len() implies reference_fits(
                #[trigger] self.references[k],
                self.nodes[k + 1].0,
                self.nodes[k + 1].1,
                self.direction,
            ) by {
                if k < old_refs.len() {
                    assert(self.references[k] == old_refs[k]);
                    assert(self.nodes[k + 1] == old_nodes[k + 1]);
                }
            }
            assert forall|k: int| 0 <= k < self.head implies (#[trigger] self.nodes[k]).1
                <= self.max_depth_reached by {
                assert(self.nodes[k] == old_nodes[k]);
            }
            if !(self.head == 0 && self.max_depth_reached == 0) {
                let k = choose|k: int|
                    0 <= k < old(self).head && (#[trigger] old_nodes[k]).1 == self.max_depth_reached;
                assert(self.nodes[k] == old_nodes[k]);
            }
        }
    }
}

/// What a traversal keeps, whatever the server answers: no item is reported
/// twice or as the starting item, the budget bounds the number of
/// references, every reference lies above the depth limit and (with
/// `project_only`) in a workspace source file, references come in order of
/// depth, and the deepest depth reached stays within the limit.
pub proof fn law_bfs_invariants(b: CallHierarchyBfs)
    requires
        b.wf(),
    ensures
        forall|i: int, j: int|
            0 <= i < j < b.nodes.len() ==> !same_key(b.nodes[i].0, b.nodes[j].0),
        b.references.len() <= b.budget,
        forall|k: int|
            0 <= k < b.references.len() ==> (#[trigger] b.references[k]).depth < b.max_depth,
        forall|k: int|
            0 <= k < b.references.len() ==> passes_filter(
                b.project_only,
                (#[trigger] b.references[k]).file@,
            ),
        forall|i: int, j: int|
            0 <= i <= j < b.references.len() ==> b.references[i].depth <= b.references[j].depth,
        b.max_depth_reached <= b.max_depth,
{
    assert forall|k: int| 0 <= k < b.references.len() implies (#[trigger] b.references[k]).depth
        < b.max_depth by {
        assert(reference_fits(b.references[k], b.nodes[k + 1].0, b.nodes[k + 1].1, b.direction));
        assert(1 <= b.nodes[k + 1].1 <= b.max_depth);
    }
    assert forall|k: int| 0 <= k < b.references.len() implies passes_filter(
        b.project_only,
        (#[trigger] b.references[k]).file@,
    ) by {
        assert(reference_fits(b.references[k], b.nodes[k + 1].0, b.nodes[k + 1].1, b.direction));
        assert(passes_filter(b.project_only, b.nodes[k + 1].0.file@));
    }
    assert forall|i: int, j: int|
        0 <= i <= j < b.references.len() implies b.references[i].depth
        <= b.references[j].depth by {
        assert(reference_fits(b.references[i], b.nodes[i + 1].0, b.nodes[i + 1].1, b.direction));
        assert(reference_fits(b.references[j], b.nodes[j + 1].0, b.nodes[j + 1].1, b.direction));
        assert(b.nodes[i + 1].1 <= b.nodes[j + 1].1);
    }
    if b.head >= 1 && !(b.head == 0 && b.max_depth_reached == 0) {
        let k = choose|k: int| 0 <= k < b.head && (#[trigger] b.nodes[k]).1 == b.max_depth_reached;
        if k >= 1 {
            assert(1 <= b.nodes[k].1 <= b.max_depth);
        }
    }
}

} // verus!
