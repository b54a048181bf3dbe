//! Repository-relative paths, read the way `std::path::Path` reads them on
//! Unix: `/`-separated segments, where a leading `.` is a current-directory
//! component, `..` is a parent component, and empty or later `.` segments
//! are no component at all.
use vstd::prelude::*;
use vstd::string::*;

use crate::text::{chars_of, split, split_of, views};

verus! {

/// The `/`-separated segments of a path.
pub open spec fn segments(s: Seq<char>) -> Seq<Seq<char>> {
    split(s, "/"@)
}

/// A relative path whose components are all ordinary names: nonempty, at
/// most 4096 bytes, no NUL, not absolute, not starting with a `.`
/// component, and with no `..` component.
pub open spec fn is_relative_path(s: Seq<char>) -> bool {
    &&& s.len() > 0
    &&& vstd::utf8::encode_utf8(s).len() <= 4096
    &&& forall|i: int| 0 <= i < s.len() ==> #[trigger] s[i] != '\0'
    &&& s[0] != '/'
    &&& segments(s)[0] != "."@
    &&& forall|k: int| 0 <= k < segments(s).len() ==> #[trigger] segments(s)[k] != ".."@
}

/// The segments of `path`.
pub fn segments_of(path: &[char]) -> (out: Vec<Vec<char>>)
    ensures
        views(out@) == segments(path@),
        out@.len() > 0,
{
    let slash = chars_of("/");
    proof {
        reveal_strlit("/");
        crate::text::lemma_split_nonempty(path@, slash@);
    }
    split_of(path, slash.as_slice())
}

/// Whether `s` is exactly the characters of `lit`.
fn chars_equal(s: &[char], lit: &str) -> (b: bool)
    ensures
        b == (s@ == lit@),
{
    let l = chars_of(lit);
    if s.len() != l.len() {
        return false;
    }
    let m = crate::text::matches_at(s, l.as_slice(), 0);
    proof {
        assert(s@.subrange(0, l@.len() as int) =~= s@);
    }
    m
}

/// Whether no segment is `..`.
fn no_parent_segment(segs: &Vec<Vec<char>>) -> (b: bool)
    ensures
        b == forall|k: int| 0 <= k < segs@.len() ==> #[trigger] views(segs@)[k] != ".."@,
{
    let mut k: usize = 0;
    while k < segs.len()
        invariant
            k <= segs@.len(),
            forall|j: int| 0 <= j < k ==> #[trigger] views(segs@)[j] != ".."@,
        decreases segs@.len() - k,
    {
        proof {
            assert(views(segs@)[k as int] == segs@[k as int]@);
        }
        if chars_equal(segs[k].as_slice(), "..") {
            return false;
        }
        k = k + 1;
    }
    true
}

/// Whether no character is NUL.
pub fn no_nul(s: &[char]) -> (b: bool)
    ensures
        b == forall|i: int| 0 <= i < s@.len() ==> #[trigger] s@[i] != '\0',
{
    let mut i: usize = 0;
    while i < s.len()
        invariant
            i <= s@.len(),
            forall|j: int| 0 <= j < i ==> #[trigger] s@[j] != '\0',
        decreases s@.len() - i,
    {
        if s[i] == '\0' {
            return false;
        }
        i = i + 1;
    }
    true
}

/// Whether `path` is a relative path of ordinary components.
pub fn relative_path_ok(path: &str) -> (b: bool)
    ensures
        b == is_relative_path(path@),
{
    let s = chars_of(path);
    if s.len() == 0 || path.as_bytes().len() > 4096 || !no_nul(s.as_slice()) || s[0] == '/' {
        return false;
    }
    proof {
        assert(path.spec_bytes() == vstd::utf8::encode_utf8(path@));
    }
    components_normal(s.as_slice())
}

/// Not absolute, not starting with a `.` component, and without a `..`
/// component.
pub open spec fn normal_components(s: Seq<char>) -> bool {
    &&& s.len() > 0
    &&& s[0] != '/'
    &&& segments(s)[0] != "."@
    &&& forall|k: int| 0 <= k < segments(s).len() ==> #[trigger] segments(s)[k] != ".."@
}

/// Whether a nonempty path has ordinary components only.
pub fn components_normal(s: &[char]) -> (b: bool)
    ensures
        b == normal_components(s@),
{
    if s.len() == 0 || s[0] == '/' {
        return false;
    }
    let segs = segments_of(s);
    proof {
        assert(views(segs@)[0] == segs@[0]@);
    }
    let dot = chars_equal(segs[0].as_slice(), ".");
    let parent = no_parent_segment(&segs);
    !dot && parent
}

/// The components of a path: its nonempty segments other than `.`.
pub open spec fn normal_parts(segs: Seq<Seq<char>>) -> Seq<Seq<char>>
    decreases segs.len(),
{
    if segs.len() == 0 {
        Seq::empty()
    } else if segs.last().len() == 0 || segs.last() == "."@ {
        normal_parts(segs.drop_last())
    } else {
        normal_parts(segs.drop_last()).push(segs.last())
    }
}

/// The components of a relative path.
pub open spec fn components(s: Seq<char>) -> Seq<Seq<char>> {
    normal_parts(segments(s))
}

/// The components of a path.
pub fn components_of(path: &[char]) -> (out: Vec<Vec<char>>)
    ensures
        views(out@) == components(path@),
{
    let segs = segments_of(path);
    let mut out: Vec<Vec<char>> = Vec::new();
    let mut k: usize = 0;
    while k < segs.len()
        invariant
            k <= segs@.len(),
            views(out@) == normal_parts(views(segs@).take(k as int)),
        decreases segs@.len() - k,
    {
        let seg = segs[k].as_slice();
        proof {
            let t = views(segs@).take(k + 1);
            assert(t.drop_last() =~= views(segs@).take(k as int));
            assert(t.last() == seg@);
        }
        if seg.len() > 0 && !chars_equal(seg, ".") {
            let ghost before = views(out@);
            let mut copy: Vec<char> = Vec::new();
            crate::text::extend_chars(&mut copy, seg);
            out.push(copy);
            proof {
                assert(views(out@) =~= before.push(seg@));
            }
        }
        k = k + 1;
    }
    proof {
        assert(views(segs@).take(segs@.len() as int) =~= views(segs@));
    }
    out
}

/// Whether the components of `parent` begin the components of `child`.
pub open spec fn components_prefix(parent: Seq<char>, child: Seq<char>) -> bool {
    components(parent).len() <= components(child).len() && components(child).take(
        components(parent).len() as int,
    ) == components(parent)
}

/// Whether both are valid relative paths and `child` lies at or below
/// `parent`, component by component.
pub open spec fn path_contains_spec(parent: Seq<char>, child: Seq<char>) -> bool {
    is_relative_path(parent) && is_relative_path(child) && components_prefix(parent, child)
}

/// Whether the components of `a` begin those of `b`.
pub fn parts_prefix(a: &Vec<Vec<char>>, b: &Vec<Vec<char>>) -> (r: bool)
    ensures
        r == (views(a@).len() <= views(b@).len() && views(b@).take(views(a@).len() as int)
            == views(a@)),
{
    if a.len() > b.len() {
        return false;
    }
    let mut k: usize = 0;
    while k < a.len()
        invariant
            a@.len() <= b@.len(),
            k <= a@.len(),
            forall|j: int| 0 <= j < k ==> #[trigger] views(a@)[j] == views(b@)[j],
        decreases a@.len() - k,
    {
        let x = a[k].as_slice();
        let y = b[k].as_slice();
        proof {
            assert(views(a@)[k as int] == x@);
            assert(views(b@)[k as int] == y@);
        }
        let same = x.len() == y.len() && crate::text::matches_at(y, x, 0);
        proof {
            if x@.len() == y@.len() {
                assert(y@.subrange(0, x@.len() as int) =~= y@);
            }
        }
        if !same {
            proof {
                assert(views(b@).take(views(a@).len() as int)[k as int] == y@);
            }
            return false;
        }
        k = k + 1;
    }
    proof {
        assert(views(b@).take(views(a@).len() as int) =~= views(a@));
    }
    true
}

/// Whether `child` lies at or below `parent`; both must be valid relative
/// paths.
pub fn path_contains(parent: &str, child: &str) -> (b: bool)
    ensures
        b == path_contains_spec(parent@, child@),
{
    if !relative_path_ok(child) || !relative_path_ok(parent) {
        return false;
    }
    let p = chars_of(parent);
    let c = chars_of(child);
    let pc = components_of(p.as_slice());
    let cc = components_of(c.as_slice());
    parts_prefix(&pc, &cc)
}

/// Whether some segment of `path` is one of `names`.
pub open spec fn has_segment_in(path: Seq<char>, names: Seq<Seq<char>>) -> bool {
    exists|k: int, j: int|
        0 <= k < segments(path).len() && 0 <= j < names.len() && #[trigger] segments(path)[k]
            == #[trigger] names[j]
}

/// Whether some segment of `path` is one of `names`.
pub fn has_segment_of(path: &str, names: &Vec<Vec<char>>) -> (b: bool)
    ensures
        b == has_segment_in(path@, views(names@)),
{
    let s = chars_of(path);
    let segs = segments_of(s.as_slice());
    let mut k: usize = 0;
    while k < segs.len()
        invariant
            views(segs@) == segments(path@),
            k <= segs@.len(),
            forall|a: int, j: int|
                0 <= a < k && 0 <= j < names@.len() ==> #[trigger] views(segs@)[a] != #[trigger] views(
                    names@,
                )[j],
        decreases segs@.len() - k,
    {
        let seg = segs[k].as_slice();
        let mut j: usize = 0;
        while j < names.len()
            invariant
                views(segs@) == segments(path@),
                k < segs@.len(),
                seg@ == views(segs@)[k as int],
                j <= names@.len(),
                forall|a: int, i: int|
                    0 <= a < k && 0 <= i < names@.len() ==> #[trigger] views(segs@)[a]
                        != #[trigger] views(names@)[i],
                forall|i: int| 0 <= i < j ==> seg@ != #[trigger] views(names@)[i],
            decreases names@.len() - j,
        {
            let name = names[j].as_slice();
            proof {
                assert(views(names@)[j as int] == name@);
            }
            let same = seg.len() == name.len() && crate::text::matches_at(name, seg, 0);
            proof {
                if seg@.len() == name@.len() {
                    assert(name@.subrange(0, seg@.len() as int) =~= name@);
                }
            }
            if same {
                return true;
            }
            j = j + 1;
        }
        proof {
            assert(views(segs@)[k as int] == segs@[k as int]@);
        }
        k = k + 1;
    }
    false
}

} // verus!
