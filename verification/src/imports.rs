//! The file-level import lines shown by the deep-context tool.

use vstd::prelude::*;
use crate::definition::ext_or_empty;
use crate::paths::extension_range;
use crate::text::{
    chars_of, contains_chars, contains_seq, copy_range, find_char_in,
    lemma_find_char_bounds, starts_with_chars, starts_with_seq, string_of_chars, strip_cr,
    text_lines, trim, trim_range, views,
};

verus! {

/// The most import lines listed.
pub const MAX_IMPORTS: usize = 200;

/// How a language writes its imports, chosen by file extension.
#[derive(PartialEq, Eq, Structural, Clone, Copy, Debug)]
pub enum ImportStyle {
    /// `java`, `kt`, `scala`: `import` and `package` lines.
    Java,
    /// `cs`: `using` and `namespace` lines.
    CSharp,
    /// `py`: `import` and `from` lines.
    Python,
    /// `ts`, `tsx`, `js`, `jsx`, `mjs`, `cjs`: `import` lines and `require(` calls.
    Script,
    /// `rs`: `use` and `extern crate` lines.
    Rust,
    /// `go`: single `import "…"` lines and `import ( … )` blocks.
    Go,
    /// `swift`: `import` lines.
    Swift,
    /// `rb`: `require` and `require_relative` lines.
    Ruby,
    /// Anything else: `import` lines.
    Other,
}

pub open spec fn import_style(ext: Seq<char>) -> ImportStyle {
    if ext == "java"@ || ext == "kt"@ || ext == "scala"@ {
        ImportStyle::Java
    } else if ext == "cs"@ {
        ImportStyle::CSharp
    } else if ext == "py"@ {
        ImportStyle::Python
    } else if ext == "ts"@ || ext == "tsx"@ || ext == "js"@ || ext == "jsx"@ || ext == "mjs"@
        || ext == "cjs"@ {
        ImportStyle::Script
    } else if ext == "rs"@ {
        ImportStyle::Rust
    } else if ext == "go"@ {
        ImportStyle::Go
    } else if ext == "swift"@ {
        ImportStyle::Swift
    } else if ext == "rb"@ {
        ImportStyle::Ruby
    } else {
        ImportStyle::Other
    }
}

/// Whether a trimmed line is an import line, for the styles other than Go.
pub open spec fn keeps_line(style: ImportStyle, t: Seq<char>) -> bool {
    match style {
        ImportStyle::Java => starts_with_seq(t, "import "@) || starts_with_seq(t, "package "@),
        ImportStyle::CSharp => starts_with_seq(t, "using "@) || starts_with_seq(t, "namespace "@),
        ImportStyle::Python => starts_with_seq(t, "import "@) || starts_with_seq(t, "from "@),
        ImportStyle::Script => starts_with_seq(t, "import "@) || starts_with_seq(t, "import{"@)
            || contains_seq(t, "require("@),
        ImportStyle::Rust => starts_with_seq(t, "use "@) || starts_with_seq(t, "extern crate "@),
        ImportStyle::Swift => starts_with_seq(t, "import "@),
        ImportStyle::Ruby => starts_with_seq(t, "require "@) || starts_with_seq(
            t,
            "require_relative "@,
        ),
        _ => starts_with_seq(t, "import "@),
    }
}

/// One line of the scan: the import lines so far and whether a Go import
/// block is open, after `line`.
pub open spec fn scan_step(style: ImportStyle, imps: Seq<Seq<char>>, go_block: bool, line: Seq<char>) -> (
    Seq<Seq<char>>,
    bool,
) {
    let t = trim(line);
    if style == ImportStyle::Go {
        if t == "import ("@ {
            (imps.push(line), true)
        } else if go_block {
            (imps.push(line), t != ")"@)
        } else if starts_with_seq(t, "import \""@) {
            (imps.push(line), false)
        } else {
            (imps, false)
        }
    } else {
        (if keeps_line(style, t) {
            imps.push(line)
        } else {
            imps
        }, go_block)
    }
}

/// The scan over `lines`, which stops once `MAX_IMPORTS` lines are listed.
pub open spec fn scan_lines(style: ImportStyle, lines: Seq<Seq<char>>) -> (Seq<Seq<char>>, bool)
    decreases lines.len(),
{
    if lines.len() == 0 {
        (Seq::empty(), false)
    } else {
        let before = scan_lines(style, lines.drop_last());
        if before.0.len() >= MAX_IMPORTS {
            before
        } else {
            scan_step(style, before.0, before.1, lines.last())
        }
    }
}

/// The import lines of a file with path `file` and text `content`.
pub open spec fn file_imports(file: Seq<char>, content: Seq<char>) -> Seq<Seq<char>> {
    scan_lines(import_style(ext_or_empty(file)), text_lines(content)).0
}

proof fn lemma_scan_stops(style: ImportStyle, done: Seq<Seq<char>>, rest: Seq<Seq<char>>)
    requires
        scan_lines(style, done).0.len() >= MAX_IMPORTS,
    ensures
        scan_lines(style, done + rest) == scan_lines(style, done),
    decreases rest.len(),
{
    if rest.len() > 0 {
        lemma_scan_stops(style, done, rest.drop_last());
        assert((done + rest).drop_last() =~= done + rest.drop_last());
    } else {
        assert(done + rest =~= done);
    }
}

fn eq_lit(v: &Vec<char>, t: &str) -> (r: bool)
    ensures
        r == (v@ == t@),
{
    assert(v@.subrange(0, v.len() as int) =~= v@);
    crate::text::range_eq(v, 0, v.len(), &chars_of(t))
}

fn starts_lit(v: &Vec<char>, t: &str) -> (r: bool)
    ensures
        r == starts_with_seq(v@, t@),
{
    starts_with_chars(v, &chars_of(t))
}

/// The import style for a file path.
pub fn import_style_of(file: &str) -> (r: ImportStyle)
    ensures
        r == import_style(ext_or_empty(file@)),
{
    let v = chars_of(file);
    let ext: Vec<char> = match extension_range(&v) {
        None => Vec::new(),
        Some((a, b)) => copy_range(&v, a, b),
    };
    if eq_lit(&ext, "java") || eq_lit(&ext, "kt") || eq_lit(&ext, "scala") {
        ImportStyle::Java
    } else if eq_lit(&ext, "cs") {
        ImportStyle::CSharp
    } else if eq_lit(&ext, "py") {
        ImportStyle::Python
    } else if eq_lit(&ext, "ts") || eq_lit(&ext, "tsx") || eq_lit(&ext, "js") || eq_lit(&ext, "jsx")
        || eq_lit(&ext, "mjs") || eq_lit(&ext, "cjs") {
        ImportStyle::Script
    } else if eq_lit(&ext, "rs") {
        ImportStyle::Rust
    } else if eq_lit(&ext, "go") {
        ImportStyle::Go
    } else if eq_lit(&ext, "swift") {
        ImportStyle::Swift
    } else if eq_lit(&ext, "rb") {
        ImportStyle::Ruby
    } else {
        ImportStyle::Other
    }
}

fn keeps(style: ImportStyle, t: &Vec<char>) -> (r: bool)
    ensures
        r == keeps_line(style, t@),
{
    match style {
        ImportStyle::Java => starts_lit(t, "import ") || starts_lit(t, "package "),
        ImportStyle::CSharp => starts_lit(t, "using ") || starts_lit(t, "namespace "),
        ImportStyle::Python => starts_lit(t, "import ") || starts_lit(t, "from "),
        ImportStyle::Script => starts_lit(t, "import ") || starts_lit(t, "import{")
            || contains_chars(t, &chars_of("require(")),
        ImportStyle::Rust => starts_lit(t, "use ") || starts_lit(t, "extern crate "),
        ImportStyle::Swift => starts_lit(t, "import "),
        ImportStyle::Ruby => starts_lit(t, "require ") || starts_lit(t, "require_relative "),
        _ => starts_lit(t, "import "),
    }
}

/// The file-level import lines of a file with path `file_path` and text
/// `content`, as written (untrimmed), at most `MAX_IMPORTS` of them.
pub fn extract_imports(file_path: &str, content: &str) -> (r: Vec<String>)
    ensures
        views(r@) == file_imports(file_path@, content@),
{
    let style = import_style_of(file_path);
    let v = chars_of(content);
    let n = v.len();
    let ghost s = v@;
    let mut imports: Vec<String> = Vec::new();
    let mut go_block = false;
    let mut pos: usize = 0;
    let ghost mut done: Seq<Seq<char>> = Seq::empty();
    assert(s.skip(0) =~= s);
    assert(text_lines(s) =~= done + text_lines(s.skip(0)));
    while pos < n
        invariant
            n == v.len(),
            s == v@,
            s == content@,
            style == import_style(ext_or_empty(file_path@)),
            pos <= n,
            text_lines(s) == done + text_lines(s.skip(pos as int)),
            (views(imports@), go_block) == scan_lines(style, done),
        decreases n - pos,
    {
        if imports.len() >= MAX_IMPORTS {
            proof {
                lemma_scan_stops(style, done, text_lines(s.skip(pos as int)));
            }
            assert(views(imports@) == scan_lines(style, text_lines(s)).0);
            return imports;
        }
        let ghost rest = s.skip(pos as int);
        assert(v@.subrange(pos as int, n as int) =~= rest);
        let nl = find_char_in(&v, pos, n, '\n');
        let (lo, hi, next) = match nl {
            Some(p) => {
                let hi0 = pos + p;
                let hi = if hi0 > pos && v[hi0 - 1] == '\r' {
                    hi0 - 1
                } else {
                    hi0
                };
                (pos, hi, pos + p + 1)
            },
            None => (pos, n, n),
        };
        let ghost line = v@.subrange(lo as int, hi as int);
        proof {
            lemma_find_char_bounds(rest, '\n');
            match nl {
                Some(p) => {
                    assert(rest.take(p as int) =~= v@.subrange(pos as int, (pos + p) as int));
                    assert(strip_cr(rest.take(p as int)) =~= line);
                    assert(rest.skip(p + 1) =~= s.skip(next as int));
                    assert(text_lines(rest) == seq![line] + text_lines(s.skip(next as int)));
                },
                None => {
                    assert(line =~= rest);
                    assert(s.skip(next as int) =~= Seq::<char>::empty());
                    assert(text_lines(rest) == seq![line]);
                    assert(text_lines(s.skip(next as int)) =~= Seq::<Seq<char>>::empty());
                },
            }
        }
        let (ta, tb) = trim_range(&v, lo, hi);
        let t = copy_range(&v, ta, tb);
        let line_str = string_of_chars(&copy_range(&v, lo, hi));
        let ghost prev = views(imports@);
        if style == ImportStyle::Go {
            if eq_lit(&t, "import (") {
                go_block = true;
                imports.push(line_str);
            } else if go_block {
                imports.push(line_str);
                if eq_lit(&t, ")") {
                    go_block = false;
                }
            } else if starts_lit(&t, "import \"") {
                imports.push(line_str);
            }
        } else if keeps(style, &t) {
            imports.push(line_str);
        }
        proof {
            let new_done = done.push(line);
            assert(new_done.drop_last() =~= done);
            assert(views(imports@) =~= scan_step(style, prev, scan_lines(style, done).1, line).0);
            done = new_done;
            assert(text_lines(s) =~= done + text_lines(s.skip(next as int)));
        }
        pos = next;
    }
    assert(s.skip(n as int) =~= Seq::<char>::empty());
    assert(text_lines(s.skip(n as int)) =~= Seq::<Seq<char>>::empty());
    assert(done =~= text_lines(s));
    imports
}

proof fn lemma_scan_bounded(style: ImportStyle, lines: Seq<Seq<char>>)
    ensures
        scan_lines(style, lines).0.len() <= MAX_IMPORTS,
        forall|k: int|
            0 <= k < scan_lines(style, lines).0.len() ==> lines.contains(
                #[trigger] scan_lines(style, lines).0[k],
            ),
    decreases lines.len(),
{
    if lines.len() > 0 {
        let dl = lines.drop_last();
        lemma_scan_bounded(style, dl);
        let before = scan_lines(style, dl);
        assert forall|k: int| 0 <= k < before.0.len() implies lines.contains(#[trigger] before.0[k]) by {
            let j = choose|j: int| 0 <= j < dl.len() && dl[j] == before.0[k];
            assert(lines[j] == dl[j]);
        }
        assert(lines[lines.len() - 1] == lines.last());
    }
}

/// At most `MAX_IMPORTS` import lines are listed, and each is a line of the
/// file as written.
pub proof fn law_imports_capped(file: Seq<char>, content: Seq<char>)
    ensures
        file_imports(file, content).len() <= MAX_IMPORTS,
        forall|k: int|
            0 <= k < file_imports(file, content).len() ==> text_lines(content).contains(
                #[trigger] file_imports(file, content)[k],
            ),
{
    lemma_scan_bounded(import_style(ext_or_empty(file)), text_lines(content));
}

} // verus!
