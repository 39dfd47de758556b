//! Choosing a file of the workspace on which to probe a language server:
//! a well-known entry point if one exists, else the first matching file of
//! a depth-limited scan.

use vstd::prelude::*;
use crate::paths::name_extension;
use crate::paths::rfind_char_in;
use crate::text::{chars_of, push_str, starts_with_seq, str_eq, string_of};

verus! {

/// What a directory entry is, read without following symbolic links.
#[derive(PartialEq, Eq, Structural, Clone, Copy, Debug)]
pub enum EntryKind {
    Dir,
    File,
    /// A symbolic link or anything else that is neither.
    Other,
}

/// One entry of a directory listing, in the order the listing gave it.
pub struct WorkspaceEntry {
    pub name: String,
    pub kind: EntryKind,
    /// For a directory that could be listed, its entries; else empty.
    pub children: Vec<WorkspaceEntry>,
}

/// What the server knows of its workspace when it picks a probe file.
pub struct WorkspaceListing {
    /// The entries of the workspace root.
    pub root: Vec<WorkspaceEntry>,
    /// Relative paths found to exist (following links), among the
    /// well-known entry points that were looked for.
    pub existing: Vec<String>,
}

/// The server's state used by the health probe.
pub struct PathfinderServer {
    pub workspace: WorkspaceListing,
}

/// The file extensions a language's probe file may have; `None` for a
/// language the probe does not know.
pub open spec fn probe_extensions(language_id: Seq<char>) -> Option<Seq<Seq<char>>> {
    if language_id == "rust"@ {
        Some(seq!["rs"@])
    } else if language_id == "go"@ {
        Some(seq!["go"@])
    } else if language_id == "typescript"@ {
        Some(seq!["ts"@, "tsx"@])
    } else if language_id == "javascript"@ {
        Some(seq!["js"@, "jsx"@])
    } else if language_id == "python"@ {
        Some(seq!["py"@])
    } else if language_id == "ruby"@ {
        Some(seq!["rb"@])
    } else if language_id == "java"@ {
        Some(seq!["java"@])
    } else {
        None
    }
}

/// The well-known entry points of a language, tried in this order.
pub open spec fn probe_candidates(language_id: Seq<char>) -> Seq<Seq<char>> {
    if language_id == "rust"@ {
        seq!["src/main.rs"@, "src/lib.rs"@]
    } else if language_id == "go"@ {
        seq!["main.go"@, "cmd/main.go"@]
    } else if language_id == "typescript"@ {
        seq![
            "src/index.ts"@,
            "index.ts"@,
            "src/main.ts"@,
            "src/index.tsx"@,
            "index.tsx"@,
            "src/main.tsx"@,
        ]
    } else if language_id == "javascript"@ {
        seq![
            "src/index.js"@,
            "index.js"@,
            "src/main.js"@,
            "src/index.jsx"@,
            "index.jsx"@,
            "src/main.jsx"@,
        ]
    } else if language_id == "python"@ {
        seq!["src/__init__.py"@, "main.py"@, "setup.py"@, "__init__.py"@]
    } else if language_id == "ruby"@ {
        seq!["lib/main.rb"@, "main.rb"@]
    } else if language_id == "java"@ {
        seq![
            "src/main/java/Main.java"@,
            "src/main/java/App.java"@,
            "src/main/java/Application.java"@,
        ]
    } else {
        Seq::empty()
    }
}

/// How deep the scan goes: deeper for Java's package directories.
pub open spec fn probe_max_depth(language_id: Seq<char>) -> nat {
    if language_id == "java"@ {
        8
    } else {
        4
    }
}

/// A directory the scan does not enter: hidden, or a dependency, build or
/// cache directory.
pub open spec fn is_skipped_dir(name: Seq<char>) -> bool {
    ||| starts_with_seq(name, "."@)
    ||| name == "node_modules"@
    ||| name == "target"@
    ||| name == "vendor"@
    ||| name == "dist"@
    ||| name == "build"@
    ||| name == "__pycache__"@
    ||| name == ".git"@
}

/// The code of `c` with ASCII capitals lowered.
pub open spec fn ascii_lower_code(c: char) -> u32 {
    let x = c as u32;
    if 65 <= x <= 90 {
        (x + 32) as u32
    } else {
        x
    }
}

/// `str::eq_ignore_ascii_case`.
pub open spec fn eq_ignore_ascii_case(a: Seq<char>, b: Seq<char>) -> bool {
    a.len() == b.len() && forall|i: int|
        0 <= i < a.len() ==> ascii_lower_code(a[i]) == ascii_lower_code(b[i])
}

/// A file name whose extension is one of `exts`, ignoring ASCII case.
pub open spec fn has_probe_extension(name: Seq<char>, exts: Seq<Seq<char>>) -> bool {
    match name_extension(name) {
        Some(e) => exists|k: int| 0 <= k < exts.len() && eq_ignore_ascii_case(exts[k], e),
        None => false,
    }
}

/// The first file of `entries` (in `prefix`, at depth `depth`) that the
/// scan finds: directories are entered in order, down to depth `max_depth`,
/// unless skipped; a file matches by extension.
pub open spec fn scan_entries(
    entries: Seq<WorkspaceEntry>,
    prefix: Seq<char>,
    depth: nat,
    max_depth: nat,
    exts: Seq<Seq<char>>,
) -> Option<Seq<char>>
    decreases entries,
{
    if entries.len() == 0 {
        None
    } else {
        let e = entries[0];
        let rest = entries.subrange(1, entries.len() as int);
        match e.kind {
            EntryKind::Dir => {
                let inside = if is_skipped_dir(e.name@) || depth + 1 > max_depth {
                    None
                } else {
                    proof {
                        assert(decreases_to!(entries => entries[0]));
                        assert(decreases_to!(entries[0] => entries[0].children));
                        assert(decreases_to!(entries[0].children => entries[0].children@));
                    }
                    scan_entries(e.children@, prefix + e.name@ + "/"@, depth + 1, max_depth, exts)
                };
                match inside {
                    Some(p) => Some(p),
                    None => scan_entries(rest, prefix, depth, max_depth, exts),
                }
            },
            EntryKind::File => if has_probe_extension(e.name@, exts) {
                Some(prefix + e.name@)
            } else {
                scan_entries(rest, prefix, depth, max_depth, exts)
            },
            EntryKind::Other => scan_entries(rest, prefix, depth, max_depth, exts),
        }
    }
}

/// The first of `cands` that is among `existing`.
pub open spec fn first_existing(cands: Seq<Seq<char>>, existing: Seq<Seq<char>>) -> Option<
    Seq<char>,
>
    decreases cands.len(),
{
    if cands.len() == 0 {
        None
    } else if existing.contains(cands[0]) {
        Some(cands[0])
    } else {
        first_existing(cands.subrange(1, cands.len() as int), existing)
    }
}

pub open spec fn string_views(v: Seq<String>) -> Seq<Seq<char>> {
    v.map_values(|s: String| s@)
}

/// The probe file of a language in a workspace, relative to its root.
pub open spec fn spec_probe_file(language_id: Seq<char>, ws: WorkspaceListing) -> Option<Seq<char>> {
    match probe_extensions(language_id) {
        None => None,
        Some(exts) => match first_existing(
            probe_candidates(language_id),
            string_views(ws.existing@),
        ) {
            Some(c) => Some(c),
            None => scan_entries(ws.root@, Seq::empty(), 0, probe_max_depth(language_id), exts),
        },
    }
}

/// The file extensions of a language's probe file, or `None` for a
/// language the probe does not know.
pub fn probe_extensions_of(language_id: &str) -> (r: Option<Vec<String>>)
    ensures
        match r {
            None => probe_extensions(language_id@) is None,
            Some(v) => probe_extensions(language_id@) == Some(string_views(v@)),
        },
{
    let v: Vec<String> = if str_eq(language_id, "rust") {
        vec![string_of("rs")]
    } else if str_eq(language_id, "go") {
        vec![string_of("go")]
    } else if str_eq(language_id, "typescript") {
        vec![string_of("ts"), string_of("tsx")]
    } else if str_eq(language_id, "javascript") {
        vec![string_of("js"), string_of("jsx")]
    } else if str_eq(language_id, "python") {
        vec![string_of("py")]
    } else if str_eq(language_id, "ruby") {
        vec![string_of("rb")]
    } else if str_eq(language_id, "java") {
        vec![string_of("java")]
    } else {
        return None;
    };
    assert(probe_extensions(language_id@) == Some(string_views(v@)));
    Some(v)
}

/// The well-known entry points of a language, in the order they are tried.
pub fn probe_candidates_of(language_id: &str) -> (r: Vec<String>)
    ensures
        string_views(r@) == probe_candidates(language_id@),
{
    let v: Vec<String> = if str_eq(language_id, "rust") {
        vec![string_of("src/main.rs"), string_of("src/lib.rs")]
    } else if str_eq(language_id, "go") {
        vec![string_of("main.go"), string_of("cmd/main.go")]
    } else if str_eq(language_id, "typescript") {
        vec![
            string_of("src/index.ts"),
            string_of("index.ts"),
            string_of("src/main.ts"),
            string_of("src/index.tsx"),
            string_of("index.tsx"),
            string_of("src/main.tsx"),
        ]
    } else if str_eq(language_id, "javascript") {
        vec![
            string_of("src/index.js"),
            string_of("index.js"),
            string_of("src/main.js"),
            string_of("src/index.jsx"),
            string_of("index.jsx"),
            string_of("src/main.jsx"),
        ]
    } else if str_eq(language_id, "python") {
        vec![
            string_of("src/__init__.py"),
            string_of("main.py"),
            string_of("setup.py"),
            string_of("__init__.py"),
        ]
    } else if str_eq(language_id, "ruby") {
        vec![string_of("lib/main.rb"), string_of("main.rb")]
    } else if str_eq(language_id, "java") {
        vec![
            string_of("src/main/java/Main.java"),
            string_of("src/main/java/App.java"),
            string_of("src/main/java/Application.java"),
        ]
    } else {
        Vec::new()
    };
    assert(string_views(v@) =~= probe_candidates(language_id@));
    v
}

/// How deep the scan for a language's probe file goes.
pub fn probe_max_depth_of(language_id: &str) -> (r: usize)
    ensures
        r == probe_max_depth(language_id@),
{
    if str_eq(language_id, "java") {
        8
    } else {
        4
    }
}

/// Whether the scan skips a directory with this name.
pub fn skips_directory(name: &str) -> (r: bool)
    ensures
        r == is_skipped_dir(name@),
{
    let v = chars_of(name);
    proof {
        reveal_strlit(".");
    }
    let hidden = v.len() > 0 && v[0] == '.';
    assert(hidden == starts_with_seq(name@, "."@)) by {
        if v.len() > 0 {
            if v@[0] == '.' {
                assert(name@.take(1) =~= "."@);
            } else {
                assert(name@.take(1)[0] != "."@[0]);
            }
        }
    }
    hidden || str_eq(name, "node_modules") || str_eq(name, "target") || str_eq(name, "vendor")
        || str_eq(name, "dist") || str_eq(name, "build") || str_eq(name, "__pycache__") || str_eq(
        name,
        ".git",
    )
}

fn lower_code(c: char) -> (r: u32)
    ensures
        r == ascii_lower_code(c),
{
    let x = c as u32;
    if 65 <= x && x <= 90 {
        x + 32
    } else {
        x
    }
}

fn eq_ignore_case_in(v: &Vec<char>, lo: usize, hi: usize, e: &str) -> (r: bool)
    requires
        lo <= hi <= v.len(),
    ensures
        r == eq_ignore_ascii_case(e@, v@.subrange(lo as int, hi as int)),
{
    let w = chars_of(e);
    if w.len() != hi - lo {
        return false;
    }
    let ghost s = v@.subrange(lo as int, hi as int);
    let mut i: usize = 0;
    while i < w.len()
        invariant
            lo <= hi <= v.len(),
            w.len() == hi - lo,
            w@ == e@,
            s == v@.subrange(lo as int, hi as int),
            i <= w.len(),
            forall|j: int| 0 <= j < i ==> ascii_lower_code(w@[j]) == ascii_lower_code(s[j]),
        decreases w.len() - i,
    {
        if lower_code(w[i]) != lower_code(v[lo + i]) {
            assert(s[i as int] == v@[lo + i]);
            return false;
        }
        assert(s[i as int] == v@[lo + i]);
        i = i + 1;
    }
    true
}

/// Whether a file name has one of the extensions, ignoring ASCII case.
fn matches_extension(name: &String, exts: &Vec<String>) -> (r: bool)
    ensures
        r == has_probe_extension(name@, string_views(exts@)),
{
    let v = chars_of(name.as_str());
    let n = v.len();
    assert(v@.subrange(0, n as int) =~= v@);
    match rfind_char_in(&v, 0, n, '.') {
        None => false,
        Some(i) => {
            if i == 0 {
                return false;
            }
            let ghost e = v@.subrange(i + 1, n as int);
            assert(name@.skip(i + 1) =~= e);
            assert(name_extension(name@) == Some(e));
            let mut k: usize = 0;
            while k < exts.len()
                invariant
                    k <= exts.len(),
                    i + 1 <= n == v.len(),
                    e == v@.subrange(i + 1, n as int),
                    name_extension(name@) == Some(e),
                    forall|j: int|
                        0 <= j < k ==> !eq_ignore_ascii_case(string_views(exts@)[j], e),
                decreases exts.len() - k,
            {
                if eq_ignore_case_in(&v, i + 1, n, exts[k].as_str()) {
                    assert(string_views(exts@)[k as int] == exts@[k as int]@);
                    return true;
                }
                k = k + 1;
            }
            false
        },
    }
}

proof fn lemma_scan_step(
    entries: Seq<WorkspaceEntry>,
    i: int,
    prefix: Seq<char>,
    depth: nat,
    max_depth: nat,
    exts: Seq<Seq<char>>,
)
    requires
        0 <= i < entries.len(),
    ensures
        entries.subrange(i, entries.len() as int)[0] == entries[i],
        entries.subrange(i, entries.len() as int).subrange(
            1,
            entries.subrange(i, entries.len() as int).len() as int,
        ) == entries.subrange(i + 1, entries.len() as int),
{
    assert(entries.subrange(i, entries.len() as int).subrange(
        1,
        entries.subrange(i, entries.len() as int).len() as int,
    ) =~= entries.subrange(i + 1, entries.len() as int));
}

/// The first matching file under `entries`, as `scan_entries` describes it.
fn scan(
    entries: &Vec<WorkspaceEntry>,
    prefix: &String,
    depth: usize,
    max_depth: usize,
    exts: &Vec<String>,
) -> (r: Option<String>)
    requires
        depth <= max_depth,
    ensures
        match r {
            None => scan_entries(entries@, prefix@, depth as nat, max_depth as nat, string_views(exts@))
                is None,
            Some(p) => scan_entries(
                entries@,
                prefix@,
                depth as nat,
                max_depth as nat,
                string_views(exts@),
            ) == Some(p@),
        },
    decreases entries@,
{
    let ghost x = string_views(exts@);
    let ghost all = entries@;
    let mut i: usize = 0;
    assert(all.subrange(0, all.len() as int) =~= all);
    while i < entries.len()
        invariant
            i <= entries.len(),
            all == entries@,
            x == string_views(exts@),
            depth <= max_depth,
            scan_entries(all, prefix@, depth as nat, max_depth as nat, x) == scan_entries(
                all.subrange(i as int, all.len() as int),
                prefix@,
                depth as nat,
                max_depth as nat,
                x,
            ),
        decreases entries.len() - i,
    {
        let e = &entries[i];
        proof {
            lemma_scan_step(all, i as int, prefix@, depth as nat, max_depth as nat, x);
        }
        match e.kind {
            EntryKind::Dir => {
                if !skips_directory(e.name.as_str()) && depth < max_depth {
                    let mut sub = prefix.clone();
                    push_str(&mut sub, e.name.as_str());
                    push_str(&mut sub, "/");
                    proof {
                        assert(decreases_to!(entries@ => entries@[i as int]));
                        assert(decreases_to!(entries@[i as int] => entries@[i as int].children));
                        assert(decreases_to!(entries@[i as int].children => entries@[i as int].children@));
                    }
                    let found = scan(&e.children, &sub, depth + 1, max_depth, exts);
                    if found.is_some() {
                        return found;
                    }
                }
            },
            EntryKind::File => {
                if matches_extension(&e.name, exts) {
                    let mut p = prefix.clone();
                    push_str(&mut p, e.name.as_str());
                    return Some(p);
                }
            },
            EntryKind::Other => {},
        }
        i = i + 1;
    }
    None
}

fn lists_string(v: &Vec<String>, s: &String) -> (r: bool)
    ensures
        r == string_views(v@).contains(s@),
{
    let ghost w = string_views(v@);
    let mut j: usize = 0;
    while j < v.len()
        invariant
            j <= v.len(),
            w == string_views(v@),
            forall|k: int| 0 <= k < j ==> w[k] != s@,
        decreases v.len() - j,
    {
        if v[j].eq(s) {
            assert(w[j as int] == s@);
            return true;
        }
        j = j + 1;
    }
    false
}

fn first_existing_in(cands: &Vec<String>, existing: &Vec<String>) -> (r: Option<String>)
    ensures
        match r {
            None => first_existing(string_views(cands@), string_views(existing@)) is None,
            Some(c) => first_existing(string_views(cands@), string_views(existing@)) == Some(c@),
        },
{
    let ghost cs = string_views(cands@);
    let ghost ex = string_views(existing@);
    let mut i: usize = 0;
    assert(cs.subrange(0, cs.len() as int) =~= cs);
    while i < cands.len()
        invariant
            i <= cands.len(),
            cs == string_views(cands@),
            ex == string_views(existing@),
            first_existing(cs, ex) == first_existing(cs.subrange(i as int, cs.len() as int), ex),
        decreases cands.len() - i,
    {
        let ghost rest = cs.subrange(i as int, cs.len() as int);
        assert(rest[0] == cands@[i as int]@);
        assert(rest.subrange(1, rest.len() as int) =~= cs.subrange(i + 1, cs.len() as int));
        if lists_string(existing, &cands[i]) {
            return Some(cands[i].clone());
        }
        assert(!ex.contains(rest[0]));
        i = i + 1;
    }
    None
}

impl PathfinderServer {
    /// A file of the workspace on which to probe the server of
    /// `language_id`, relative to the workspace root: the first well-known
    /// entry point that exists, else the first file with one of the
    /// language's extensions found by a scan that enters directories in
    /// listing order down to the language's depth, skipping hidden,
    /// dependency and build directories. `None` for a language the probe
    /// does not know, or when no such file is found.
    pub fn find_probe_file(&self, language_id: &str) -> (r: Option<String>)
        ensures
            match r {
                None => spec_probe_file(language_id@, self.workspace) is None,
                Some(p) => spec_probe_file(language_id@, self.workspace) == Some(p@),
            },
    {
        let exts = match probe_extensions_of(language_id) {
            None => return None,
            Some(v) => v,
        };
        let cands = probe_candidates_of(language_id);
        match first_existing_in(&cands, &self.workspace.existing) {
            Some(c) => Some(c),
            None => {
                let max_depth = probe_max_depth_of(language_id);
                let root_prefix = String::new();
                assert(root_prefix@ =~= Seq::<char>::empty());
                self.find_file_by_extension_recursive(&self.workspace.root, &root_prefix, &exts, 0, max_depth)
            },
        }
    }

    /// The first file with one of `extensions` under `entries` (the
    /// listing of directory `prefix`, at depth `current_depth`), entering
    /// directories down to `max_depth`.
    pub fn find_file_by_extension_recursive(
        &self,
        entries: &Vec<WorkspaceEntry>,
        prefix: &String,
        extensions: &Vec<String>,
        current_depth: usize,
        max_depth: usize,
    ) -> (r: Option<String>)
        ensures
            current_depth > max_depth ==> r is None,
            current_depth <= max_depth ==> match r {
                None => scan_entries(
                    entries@,
                    prefix@,
                    current_depth as nat,
                    max_depth as nat,
                    string_views(extensions@),
                ) is None,
                Some(p) => scan_entries(
                    entries@,
                    prefix@,
                    current_depth as nat,
                    max_depth as nat,
                    string_views(extensions@),
                ) == Some(p@),
            },
    {
        if current_depth > max_depth {
            return None;
        }
        scan(entries, prefix, current_depth, max_depth, extensions)
    }
}

/// `s` ends with `t`.
pub open spec fn ends_with_seq(s: Seq<char>, t: Seq<char>) -> bool {
    t.len() <= s.len() && s.skip(s.len() - t.len()) == t
}

proof fn lemma_scan_finds_matching_file(
    entries: Seq<WorkspaceEntry>,
    prefix: Seq<char>,
    depth: nat,
    max_depth: nat,
    exts: Seq<Seq<char>>,
)
    ensures
        scan_entries(entries, prefix, depth, max_depth, exts) matches Some(p) ==> exists|
            name: Seq<char>,
        | ends_with_seq(p, name) && #[trigger] has_probe_extension(name, exts),
    decreases entries,
{
    if entries.len() > 0 {
        let e = entries[0];
        let rest = entries.subrange(1, entries.len() as int);
        lemma_scan_finds_matching_file(rest, prefix, depth, max_depth, exts);
        match e.kind {
            EntryKind::Dir => {
                if !(is_skipped_dir(e.name@) || depth + 1 > max_depth) {
                    assert(decreases_to!(entries => entries[0]));
                    assert(decreases_to!(entries[0] => entries[0].children));
                    assert(decreases_to!(entries[0].children => entries[0].children@));
                    let sub = prefix + e.name@ + "/"@;
                    lemma_scan_finds_matching_file(e.children@, sub, depth + 1, max_depth, exts);
                }
            },
            EntryKind::File => {
                if has_probe_extension(e.name@, exts) {
                    let p = prefix + e.name@;
                    assert(p.skip(p.len() - e.name@.len()) =~= e.name@);
                    assert(ends_with_seq(p, e.name@));
                }
            },
            EntryKind::Other => {},
        }
    }
}

/// A probe file is either a well-known entry point of the language that
/// exists, or a path ending in a file name with one of the language's
/// extensions; a language the probe does not know gets none.
pub proof fn law_probe_file_matches_language(language_id: Seq<char>, ws: WorkspaceListing)
    ensures
        probe_extensions(language_id) is None ==> spec_probe_file(language_id, ws) is None,
        spec_probe_file(language_id, ws) matches Some(p) ==> {
            ||| probe_candidates(language_id).contains(p) && string_views(ws.existing@).contains(p)
            ||| exists|name: Seq<char>|
                ends_with_seq(p, name) && #[trigger] has_probe_extension(
                    name,
                    probe_extensions(language_id)->0,
                )
        },
{
    if let Some(exts) = probe_extensions(language_id) {
        let cands = probe_candidates(language_id);
        let existing = string_views(ws.existing@);
        lemma_first_existing(cands, existing);
        lemma_scan_finds_matching_file(ws.root@, Seq::empty(), 0, probe_max_depth(language_id), exts);
    }
}

proof fn lemma_first_existing(cands: Seq<Seq<char>>, existing: Seq<Seq<char>>)
    ensures
        first_existing(cands, existing) matches Some(c) ==> cands.contains(c) && existing.contains(c),
    decreases cands.len(),
{
    if cands.len() > 0 && !existing.contains(cands[0]) {
        let rest = cands.subrange(1, cands.len() as int);
        lemma_first_existing(rest, existing);
        if let Some(c) = first_existing(rest, existing) {
            let j = choose|j: int| 0 <= j < rest.len() && rest[j] == c;
            assert(cands[j + 1] == c);
        }
    } else if cands.len() > 0 {
        assert(cands[0] == cands[0]);
    }
}

} // verus!
