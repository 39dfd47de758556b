//! File-path filters used to keep navigation results inside the workspace's
//! own source code.

use vstd::prelude::*;
use crate::text::{chars_of, contains_chars, contains_seq, range_eq, starts_with_seq};

verus! {

/// Index of the last occurrence of `c` in `s`.
pub open spec fn rfind_char(s: Seq<char>, c: char) -> Option<int>
    decreases s.len(),
{
    if s.len() == 0 {
        None
    } else if s.last() == c {
        Some(s.len() - 1)
    } else {
        rfind_char(s.drop_last(), c)
    }
}

pub proof fn lemma_rfind_char_bounds(s: Seq<char>, c: char)
    ensures
        match rfind_char(s, c) {
            Some(i) => 0 <= i < s.len() && s[i] == c,
            None => true,
        },
    decreases s.len(),
{
    if s.len() > 0 && s.last() != c {
        lemma_rfind_char_bounds(s.drop_last(), c);
    }
}

/// A path segment that names something: neither empty nor `.`.
pub open spec fn is_normal_segment(g: Seq<char>) -> bool {
    g.len() > 0 && g != seq!['.']
}

/// The last `/`-separated segment of `s` that is neither empty nor `.`:
/// the final component of the path as `std::path::Path` reads it.
#[verifier::opaque]
pub open spec fn last_normal_segment(s: Seq<char>) -> Option<Seq<char>>
    decreases s.len(),
{
    match rfind_char(s, '/') {
        Some(p) => {
            proof {
                lemma_rfind_char_bounds(s, '/');
            }
            if 0 <= p < s.len() {
                if is_normal_segment(s.subrange(p + 1, s.len() as int)) {
                    Some(s.subrange(p + 1, s.len() as int))
                } else {
                    last_normal_segment(s.take(p))
                }
            } else {
                None
            }
        },
        None => if is_normal_segment(s) {
            Some(s)
        } else {
            None
        },
    }
}

/// `Path::file_name`: the final component, unless it is `..` or missing.
pub open spec fn file_name(s: Seq<char>) -> Option<Seq<char>> {
    match last_normal_segment(s) {
        Some(g) => if g == seq!['.', '.'] {
            None
        } else {
            Some(g)
        },
        None => None,
    }
}

/// `Path::extension` of a file name: the text after its last `.`, unless
/// that `.` is the first character.
pub open spec fn name_extension(name: Seq<char>) -> Option<Seq<char>> {
    match rfind_char(name, '.') {
        Some(i) => if i == 0 {
            None
        } else {
            Some(name.skip(i + 1))
        },
        None => None,
    }
}

/// `Path::extension` of a path.
pub open spec fn path_extension(s: Seq<char>) -> Option<Seq<char>> {
    match file_name(s) {
        Some(n) => name_extension(n),
        None => None,
    }
}

/// The extensions of source files kept by the text-search fallbacks.
pub open spec fn is_source_extension(e: Seq<char>) -> bool {
    e == "rs"@ || e == "go"@ || e == "ts"@ || e == "tsx"@ || e == "js"@ || e == "jsx"@ || e
        == "py"@ || e == "vue"@
}

/// A path the text-search fallbacks keep as source code.
pub open spec fn spec_is_source_file(file: Seq<char>) -> bool {
    match path_extension(file) {
        Some(e) => is_source_extension(e),
        None => false,
    }
}

/// A path that looks like part of the user's workspace: relative, not a
/// drive path, and outside `node_modules` and `vendor`.
pub open spec fn spec_is_workspace_file(file: Seq<char>) -> bool {
    &&& !(file.len() > 0 && (file[0] == '/' || file[0] == '\\'))
    &&& !(file.len() >= 2 && file[1] == ':')
    &&& !contains_seq(file, "node_modules/"@)
    &&& !contains_seq(file, "node_modules\\"@)
    &&& !contains_seq(file, "vendor/"@)
    &&& !contains_seq(file, "vendor\\"@)
}

/// Last index of `c` within `v[lo..hi]`.
pub fn rfind_char_in(v: &Vec<char>, lo: usize, hi: usize, c: char) -> (r: Option<usize>)
    requires
        lo <= hi <= v.len(),
    ensures
        match r {
            Some(i) => lo <= i < hi && rfind_char(v@.subrange(lo as int, hi as int), c) == Some(
                i - lo,
            ),
            None => rfind_char(v@.subrange(lo as int, hi as int), c) == None::<int>,
        },
{
    let mut i = hi;
    while i > lo
        invariant
            lo <= i <= hi <= v.len(),
            rfind_char(v@.subrange(lo as int, hi as int), c) == rfind_char(
                v@.subrange(lo as int, i as int),
                c,
            ),
        decreases i - lo,
    {
        let ghost t = v@.subrange(lo as int, i as int);
        assert(t.last() == v@[i - 1]);
        if v[i - 1] == c {
            return Some(i - 1);
        }
        assert(t.drop_last() =~= v@.subrange(lo as int, i - 1));
        i = i - 1;
    }
    None
}

/// Range of the last normal segment of `v`.
fn last_normal_segment_range(v: &Vec<char>) -> (r: Option<(usize, usize)>)
    ensures
        match r {
            Some((a, b)) => a <= b <= v.len() && last_normal_segment(v@) == Some(
                v@.subrange(a as int, b as int),
            ),
            None => last_normal_segment(v@) == None::<Seq<char>>,
        },
{
    reveal(last_normal_segment);
    let mut hi = v.len();
    assert(v@.take(hi as int) =~= v@);
    loop
        invariant
            hi <= v.len(),
            last_normal_segment(v@) == last_normal_segment(v@.take(hi as int)),
        decreases hi,
    {
        reveal(last_normal_segment);
        let ghost t = v@.take(hi as int);
        assert(v@.subrange(0, hi as int) =~= t);
        match rfind_char_in(v, 0, hi, '/') {
            Some(p) => {
                proof {
                    lemma_rfind_char_bounds(t, '/');
                }
                assert(t.subrange(p + 1, t.len() as int) =~= v@.subrange(p + 1, hi as int));
                assert(t.take(p as int) =~= v@.take(p as int));
                if hi - (p + 1) > 0 && !(hi - (p + 1) == 1 && v[p + 1] == '.') {
                    assert(is_normal_segment(v@.subrange(p + 1, hi as int))) by {
                        if hi - (p + 1) == 1 {
                            assert(v@.subrange(p + 1, hi as int)[0] != '.');
                        }
                    }
                    return Some((p + 1, hi));
                }
                assert(!is_normal_segment(v@.subrange(p + 1, hi as int))) by {
                    if hi - (p + 1) == 1 {
                        assert(v@.subrange(p + 1, hi as int) =~= seq!['.']);
                    }
                }
                hi = p;
            },
            None => {
                if hi > 0 && !(hi == 1 && v[0] == '.') {
                    assert(is_normal_segment(t)) by {
                        if hi == 1 {
                            assert(t[0] != '.');
                        }
                    }
                    return Some((0, hi));
                }
                assert(!is_normal_segment(t)) by {
                    if hi == 1 {
                        assert(t =~= seq!['.']);
                    }
                }
                return None;
            },
        }
    }
}

/// Range of the extension of the path `v`, as `Path::extension` gives it.
pub fn extension_range(v: &Vec<char>) -> (r: Option<(usize, usize)>)
    ensures
        match r {
            Some((a, b)) => a <= b <= v.len() && path_extension(v@) == Some(
                v@.subrange(a as int, b as int),
            ),
            None => path_extension(v@) == None::<Seq<char>>,
        },
{
    match last_normal_segment_range(v) {
        None => None,
        Some((a, b)) => {
            let ghost name = v@.subrange(a as int, b as int);
            if b - a == 2 && v[a] == '.' && v[a + 1] == '.' {
                assert(name =~= seq!['.', '.']);
                return None;
            }
            assert(name != seq!['.', '.']) by {
                if name.len() == 2 {
                    assert(name[0] == v@[a as int] && name[1] == v@[a + 1]);
                }
            }
            match rfind_char_in(v, a, b, '.') {
                None => None,
                Some(i) => {
                    if i == a {
                        None
                    } else {
                        assert(name.skip(i - a + 1) =~= v@.subrange(i + 1, b as int));
                        Some((i + 1, b))
                    }
                },
            }
        },
    }
}

/// Returns `true` if the file path has a source code extension
/// (`rs`, `go`, `ts`, `tsx`, `js`, `jsx`, `py`, `vue`).
pub fn is_source_file(file: &str) -> (r: bool)
    ensures
        r == spec_is_source_file(file@),
{
    let v = chars_of(file);
    match extension_range(&v) {
        None => false,
        Some((a, b)) => {
            range_eq(&v, a, b, &chars_of("rs")) || range_eq(&v, a, b, &chars_of("go"))
                || range_eq(&v, a, b, &chars_of("ts")) || range_eq(&v, a, b, &chars_of("tsx"))
                || range_eq(&v, a, b, &chars_of("js")) || range_eq(&v, a, b, &chars_of("jsx"))
                || range_eq(&v, a, b, &chars_of("py")) || range_eq(&v, a, b, &chars_of("vue"))
        },
    }
}

/// Returns `true` if the file looks like it is from the user's workspace:
/// not an absolute or drive path, and not under `node_modules/` or `vendor/`.
pub fn is_workspace_file(file: &str) -> (r: bool)
    ensures
        r == spec_is_workspace_file(file@),
{
    let v = chars_of(file);
    if v.len() > 0 && (v[0] == '/' || v[0] == '\\') {
        return false;
    }
    if v.len() >= 2 && v[1] == ':' {
        return false;
    }
    if contains_chars(&v, &chars_of("node_modules/")) || contains_chars(
        &v,
        &chars_of("node_modules\\"),
    ) || contains_chars(&v, &chars_of("vendor/")) || contains_chars(&v, &chars_of("vendor\\")) {
        return false;
    }
    true
}


/// Adds the segment `cur` to `done` when it names something.
pub open spec fn flush_segment(done: Seq<Seq<char>>, cur: Seq<char>) -> Seq<Seq<char>> {
    if is_normal_segment(cur) {
        done.push(cur)
    } else {
        done
    }
}

/// Reading `s` left to right: the finished normal segments, and the
/// segment being read.
pub open spec fn segment_scan(s: Seq<char>) -> (Seq<Seq<char>>, Seq<char>)
    decreases s.len(),
{
    if s.len() == 0 {
        (Seq::empty(), Seq::empty())
    } else {
        let before = segment_scan(s.drop_last());
        if s.last() == '/' {
            (flush_segment(before.0, before.1), Seq::empty())
        } else {
            (before.0, before.1.push(s.last()))
        }
    }
}

/// The `/`-separated segments of `s` that are neither empty nor `.`, in order.
pub open spec fn normal_segments(s: Seq<char>) -> Seq<Seq<char>> {
    flush_segment(segment_scan(s).0, segment_scan(s).1)
}

/// `s` starts at the root directory.
pub open spec fn has_root(s: Seq<char>) -> bool {
    s.len() > 0 && s[0] == '/'
}

/// `s` starts with a `.` component, which `Path::components` keeps only there.
pub open spec fn has_leading_cur_dir(s: Seq<char>) -> bool {
    s == "."@ || starts_with_seq(s, "./"@)
}

/// Two paths are equal as `std::path::Path` compares them: component by
/// component, so that repeated separators, a trailing separator and inner
/// `.` components make no difference.
pub open spec fn same_path(a: Seq<char>, b: Seq<char>) -> bool {
    &&& has_root(a) == has_root(b)
    &&& has_leading_cur_dir(a) == has_leading_cur_dir(b)
    &&& normal_segments(a) == normal_segments(b)
}

/// The normal segments of `v`.
fn path_segments(v: &Vec<char>) -> (r: Vec<Vec<char>>)
    ensures
        r@.map_values(|g: Vec<char>| g@) == normal_segments(v@),
{
    let mut done: Vec<Vec<char>> = Vec::new();
    let mut cur: Vec<char> = Vec::new();
    let mut i: usize = 0;
    while i < v.len()
        invariant
            i <= v.len(),
            (done@.map_values(|g: Vec<char>| g@), cur@) == segment_scan(v@.take(i as int)),
        decreases v.len() - i,
    {
        let ghost before = segment_scan(v@.take(i as int));
        assert(v@.take(i + 1).drop_last() =~= v@.take(i as int));
        if v[i] == '/' {
            if cur.len() > 0 && !(cur.len() == 1 && cur[0] == '.') {
                assert(is_normal_segment(cur@)) by {
                    if cur.len() == 1 {
                        assert(cur@[0] != '.');
                    }
                }
                let ghost d0 = done@;
                done.push(cur);
                assert(done@.map_values(|g: Vec<char>| g@) =~= d0.map_values(
                    |g: Vec<char>| g@,
                ).push(before.1));
            } else {
                assert(!is_normal_segment(cur@)) by {
                    if cur.len() == 1 {
                        assert(cur@ =~= seq!['.']);
                    }
                }
            }
            cur = Vec::new();
            assert(cur@ =~= Seq::<char>::empty());
        } else {
            cur.push(v[i]);
        }
        i = i + 1;
    }
    assert(v@.take(v.len() as int) =~= v@);
    if cur.len() > 0 && !(cur.len() == 1 && cur[0] == '.') {
        assert(is_normal_segment(cur@)) by {
            if cur.len() == 1 {
                assert(cur@[0] != '.');
            }
        }
        let ghost d0 = done@;
        let ghost c0 = cur@;
        done.push(cur);
        assert(done@.map_values(|g: Vec<char>| g@) =~= d0.map_values(|g: Vec<char>| g@).push(c0));
    } else {
        assert(!is_normal_segment(cur@)) by {
            if cur.len() == 1 {
                assert(cur@ =~= seq!['.']);
            }
        }
    }
    done
}

fn vec_chars_eq(a: &Vec<char>, b: &Vec<char>) -> (r: bool)
    ensures
        r == (a@ == b@),
{
    if a.len() != b.len() {
        return false;
    }
    let mut i: usize = 0;
    while i < a.len()
        invariant
            i <= a.len() == b.len(),
            forall|j: int| 0 <= j < i ==> a@[j] == b@[j],
        decreases a.len() - i,
    {
        if a[i] != b[i] {
            return false;
        }
        i = i + 1;
    }
    assert(a@ =~= b@);
    true
}

fn leading_cur_dir(v: &Vec<char>) -> (r: bool)
    ensures
        r == has_leading_cur_dir(v@),
{
    proof {
        reveal_strlit(".");
        reveal_strlit("./");
    }
    let r = v.len() > 0 && v[0] == '.' && (v.len() == 1 || v[1] == '/');
    assert(r == has_leading_cur_dir(v@)) by {
        if v.len() == 1 && v[0] == '.' {
            assert(v@ =~= "."@);
        }
        if v.len() >= 2 && v@[0] == '.' && v@[1] == '/' {
            assert(v@.take(2) =~= "./"@);
        }
        if v@ == "."@ {
            assert(v@[0] == '.');
        }
        if starts_with_seq(v@, "./"@) {
            assert(v@.take(2)[0] == '.' && v@.take(2)[1] == '/');
        }
    }
    r
}

/// Whether `a` and `b` name the same path, compared as `std::path::Path`
/// values are.
pub fn paths_equal(a: &str, b: &str) -> (r: bool)
    ensures
        r == same_path(a@, b@),
{
    let va = chars_of(a);
    let vb = chars_of(b);
    let ra = va.len() > 0 && va[0] == '/';
    let rb = vb.len() > 0 && vb[0] == '/';
    if ra != rb || leading_cur_dir(&va) != leading_cur_dir(&vb) {
        return false;
    }
    let sa = path_segments(&va);
    let sb = path_segments(&vb);
    let ghost ma = sa@.map_values(|g: Vec<char>| g@);
    let ghost mb = sb@.map_values(|g: Vec<char>| g@);
    if sa.len() != sb.len() {
        assert(ma.len() != mb.len());
        return false;
    }
    let mut i: usize = 0;
    while i < sa.len()
        invariant
            i <= sa.len() == sb.len(),
            ma == sa@.map_values(|g: Vec<char>| g@),
            mb == sb@.map_values(|g: Vec<char>| g@),
            ma == normal_segments(a@),
            mb == normal_segments(b@),
            forall|j: int| 0 <= j < i ==> ma[j] == mb[j],
        decreases sa.len() - i,
    {
        if !vec_chars_eq(&sa[i], &sb[i]) {
            assert(ma[i as int] != mb[i as int]);
            return false;
        }
        i = i + 1;
    }
    assert(ma =~= mb);
    true
}

/// Path equality is an equivalence: every path equals itself, and equality
/// is symmetric and transitive.
pub proof fn law_same_path_equivalence(a: Seq<char>, b: Seq<char>, c: Seq<char>)
    ensures
        same_path(a, a),
        same_path(a, b) == same_path(b, a),
        same_path(a, b) && same_path(b, c) ==> same_path(a, c),
{
}

} // verus!
