//! A set of files, each a relative path with its bytes, kept in path order,
//! and the location of the first difference between two such sets.
use vstd::prelude::*;
use crate::inventory::{
    compare_chars, lemma_lt_asymmetric, lemma_lt_irreflexive, lemma_lt_total,
    lemma_lt_transitive, seq_lt,
};
use crate::text::{chars_of, decimal, push_decimal, string_of};

verus! {

/// Entries strictly increasing by path.
pub open spec fn paths_sorted(s: Seq<(Seq<char>, Seq<u8>)>) -> bool {
    forall|i: int, j: int| 0 <= i < j < s.len() ==> seq_lt(#[trigger] s[i].0, #[trigger] s[j].0)
}

/// The entries after setting `path` to `bytes`, keeping path order: a new
/// path is inserted in place, an existing one has its bytes replaced.
pub open spec fn insert_entry(s: Seq<(Seq<char>, Seq<u8>)>, path: Seq<char>, bytes: Seq<u8>) -> Seq<
    (Seq<char>, Seq<u8>),
>
    decreases s.len(),
{
    if s.len() == 0 {
        seq![(path, bytes)]
    } else if seq_lt(path, s[0].0) {
        seq![(path, bytes)] + s
    } else if s[0].0 == path {
        seq![(path, bytes)] + s.drop_first()
    } else {
        seq![s[0]] + insert_entry(s.drop_first(), path, bytes)
    }
}

/// In a file set sorted by path, a path names at most one file.
pub proof fn lemma_unique_paths(s: Seq<(Seq<char>, Seq<u8>)>)
    requires
        paths_sorted(s),
    ensures
        forall|i: int, j: int| 0 <= i < s.len() && 0 <= j < s.len() && #[trigger] s[i].0 == #[trigger] s[j].0 ==> i == j,
{
    assert forall|i: int, j: int| 0 <= i < s.len() && 0 <= j < s.len() && #[trigger] s[i].0 == #[trigger] s[j].0 implies i == j by {
        if i < j {
            lemma_lt_irreflexive(s[i].0);
        } else if j < i {
            lemma_lt_irreflexive(s[j].0);
        }
    }
}

/// Files by relative path, in path order, each path once.
pub struct FileMap {
    entries: Vec<(Vec<char>, Vec<u8>)>,
}

pub open spec fn entry_views(v: Seq<(Vec<char>, Vec<u8>)>) -> Seq<(Seq<char>, Seq<u8>)> {
    v.map_values(|e: (Vec<char>, Vec<u8>)| (e.0@, e.1@))
}

impl View for FileMap {
    type V = Seq<(Seq<char>, Seq<u8>)>;

    closed spec fn view(&self) -> Seq<(Seq<char>, Seq<u8>)> {
        entry_views(self.entries@)
    }
}

proof fn lemma_insert_entry_split(s: Seq<(Seq<char>, Seq<u8>)>, path: Seq<char>, bytes: Seq<u8>, p: int)
    requires
        paths_sorted(s),
        0 <= p <= s.len(),
        forall|k: int| 0 <= k < p ==> seq_lt(#[trigger] s[k].0, path),
        p < s.len() ==> !seq_lt(s[p].0, path),
    ensures
        p < s.len() && s[p].0 == path ==> insert_entry(s, path, bytes) == s.take(p).push(
            (path, bytes),
        ) + s.skip(p + 1),
        !(p < s.len() && s[p].0 == path) ==> insert_entry(s, path, bytes) == s.take(p).push(
            (path, bytes),
        ) + s.skip(p),
        paths_sorted(insert_entry(s, path, bytes)),
    decreases s.len(),
{
    if s.len() == 0 {
        assert(s.take(p).push((path, bytes)) + s.skip(p) =~= seq![(path, bytes)]);
    } else if p == 0 {
        lemma_lt_total(path, s[0].0);
        if s[0].0 == path {
            assert(s.take(0).push((path, bytes)) + s.skip(1) =~= seq![(path, bytes)]
                + s.drop_first());
        } else {
            assert(seq_lt(path, s[0].0));
            assert(s.take(0).push((path, bytes)) + s.skip(0) =~= seq![(path, bytes)] + s);
        }
        let t = insert_entry(s, path, bytes);
        assert forall|i: int, j: int| 0 <= i < j < t.len() implies seq_lt(
            #[trigger] t[i].0,
            #[trigger] t[j].0,
        ) by {
            if i == 0 && s[0].0 != path {
                assert(t[j] == s[j - 1]);
                if j > 1 {
                    assert(seq_lt(s[0].0, s[j - 1].0));
                    lemma_lt_transitive(path, s[0].0, s[j - 1].0);
                }
            } else if i == 0 {
                assert(t[j] == s[j]);
                assert(seq_lt(s[0].0, s[j].0));
            } else if s[0].0 != path {
                assert(t[i] == s[i - 1] && t[j] == s[j - 1]);
            } else {
                assert(t[i] == s[i] && t[j] == s[j]);
            }
        }
    } else {
        let s1 = s.drop_first();
        assert forall|k: int| 0 <= k < p - 1 implies seq_lt(#[trigger] s1[k].0, path) by {
            assert(s1[k] == s[k + 1]);
        }
        if p - 1 < s1.len() {
            assert(s1[p - 1] == s[p]);
        }
        lemma_insert_entry_split(s1, path, bytes, p - 1);
        assert(seq_lt(s[0].0, path));
        lemma_lt_asymmetric(s[0].0, path);
        if p < s.len() && s[p].0 == path {
            assert(s.take(p).push((path, bytes)) + s.skip(p + 1) =~= seq![s[0]] + (s1.take(
                p - 1,
            ).push((path, bytes)) + s1.skip(p)));
        } else {
            assert(s.take(p).push((path, bytes)) + s.skip(p) =~= seq![s[0]] + (s1.take(p - 1).push(
                (path, bytes),
            ) + s1.skip(p - 1)));
        }
        let t = insert_entry(s, path, bytes);
        let t1 = insert_entry(s1, path, bytes);
        assert(t == seq![s[0]] + t1);
        assert forall|i: int, j: int| 0 <= i < j < t.len() implies seq_lt(
            #[trigger] t[i].0,
            #[trigger] t[j].0,
        ) by {
            if i == 0 {
                assert(t[j] == t1[j - 1]);
                // Every path of `t1` is a path of `s1` or `path`, all above `s[0]`.
                if t1[j - 1].0 == path {
                } else {
                    assert(t1.contains(t1[j - 1]));
                    lemma_insert_entry_member(s1, path, bytes, j - 1);
                    let m = choose|m: int| 0 <= m < s1.len() && s1[m] == t1[j - 1];
                    assert(s1[m] == s[m + 1]);
                }
            } else {
                assert(t[i] == t1[i - 1] && t[j] == t1[j - 1]);
            }
        }
    }
}

/// Each entry of the insertion result is the new entry or an old one.
proof fn lemma_insert_entry_member(s: Seq<(Seq<char>, Seq<u8>)>, path: Seq<char>, bytes: Seq<u8>, k: int)
    requires
        0 <= k < insert_entry(s, path, bytes).len(),
        insert_entry(s, path, bytes)[k].0 != path,
    ensures
        exists|m: int| 0 <= m < s.len() && s[m] == insert_entry(s, path, bytes)[k],
    decreases s.len(),
{
    let t = insert_entry(s, path, bytes);
    if s.len() == 0 {
    } else if seq_lt(path, s[0].0) {
        assert(s[k - 1] == t[k]);
    } else if s[0].0 == path {
        assert(s[k] == t[k]);
    } else if k == 0 {
        assert(s[0] == t[0]);
    } else {
        lemma_insert_entry_member(s.drop_first(), path, bytes, k - 1);
        let m = choose|m: int|
            0 <= m < s.drop_first().len() && s.drop_first()[m] == insert_entry(
                s.drop_first(),
                path,
                bytes,
            )[k - 1];
        assert(s[m + 1] == t[k]);
    }
}

impl FileMap {
    #[verifier::type_invariant]
    closed spec fn sorted(&self) -> bool {
        paths_sorted(entry_views(self.entries@))
    }

    /// No files.
    pub fn new() -> (m: FileMap)
        ensures
            m@ == Seq::<(Seq<char>, Seq<u8>)>::empty(),
    {
        let m = FileMap { entries: Vec::new() };
        proof {
            assert(entry_views(m.entries@) =~= Seq::<(Seq<char>, Seq<u8>)>::empty());
        }
        m
    }

    /// The number of files; the files are in strictly increasing path
    /// order.
    pub fn len(&self) -> (n: usize)
        ensures
            n == self@.len(),
            paths_sorted(self@),
    {
        proof {
            use_type_invariant(self);
        }
        self.entries.len()
    }

    /// The path of the `i`-th file in path order.
    pub fn path_at(&self, i: usize) -> (p: &[char])
        requires
            i < self@.len(),
        ensures
            p@ == self@[i as int].0,
    {
        self.entries[i].0.as_slice()
    }

    /// The bytes of the `i`-th file in path order.
    pub fn bytes_at(&self, i: usize) -> (b: &[u8])
        requires
            i < self@.len(),
        ensures
            b@ == self@[i as int].1,
    {
        self.entries[i].1.as_slice()
    }

    /// Sets the bytes of `path`, adding it in path order when it is new.
    pub fn insert(&mut self, path: &str, bytes: Vec<u8>)
        ensures
            final(self)@ == insert_entry(old(self)@, path@, bytes@),
            paths_sorted(final(self)@),
    {
        proof {
            use_type_invariant(&*self);
        }
        let key = chars_of(path);
        let ghost s = entry_views(self.entries@);
        let mut p: usize = 0;
        while p < self.entries.len()
            invariant
                s == entry_views(self.entries@),
                paths_sorted(s),
                key@ == path@,
                p <= s.len(),
                forall|k: int| 0 <= k < p ==> seq_lt(#[trigger] s[k].0, key@),
            ensures
                s == entry_views(self.entries@),
                p <= s.len(),
                forall|k: int| 0 <= k < p ==> seq_lt(#[trigger] s[k].0, key@),
                p < s.len() ==> !seq_lt(s[p as int].0, key@),
            decreases s.len() - p,
        {
            proof {
                assert(s[p as int].0 == self.entries@[p as int].0@);
            }
            if compare_chars(self.entries[p].0.as_slice(), key.as_slice()) != -1 {
                break;
            }
            p = p + 1;
        }
        proof {
            lemma_insert_entry_split(s, path@, bytes@, p as int);
        }
        let ghost bv = bytes@;
        let replace = p < self.entries.len() && compare_chars(
            self.entries[p].0.as_slice(),
            key.as_slice(),
        ) == 0;
        proof {
            if p < s.len() {
                assert(s[p as int].0 == self.entries@[p as int].0@);
            }
        }
        let mut entries = Vec::new();
        std::mem::swap(&mut entries, &mut self.entries);
        if replace {
            entries.set(p, (key, bytes));
        } else {
            entries.insert(p, (key, bytes));
        }
        proof {
            if replace {
                assert(entry_views(entries@) =~= s.take(p as int).push((path@, bv)) + s.skip(p + 1));
            } else {
                assert(entry_views(entries@) =~= s.take(p as int).push((path@, bv)) + s.skip(
                    p as int,
                ));
            }
        }
        self.entries = entries;
    }
}

/// The index of the first byte at which two byte strings differ, or the
/// shorter length when one is a prefix of the other.
pub open spec fn first_byte_difference(a: Seq<u8>, b: Seq<u8>) -> int
    decreases a.len(),
{
    if a.len() == 0 || b.len() == 0 || a[0] != b[0] {
        0
    } else {
        1 + first_byte_difference(a.drop_first(), b.drop_first())
    }
}

/// Where two file sets first differ, in path order.
#[derive(Clone, Debug, PartialEq, Eq)]
pub enum Difference {
    /// The path exists only in the second set.
    MissingFirst(Vec<char>),
    /// The path exists only in the first set.
    MissingSecond(Vec<char>),
    /// Both sets hold the path with different bytes, first differing at
    /// this offset.
    Byte(Vec<char>, u64),
    /// The sets are equal.
    Unknown,
}

/// The index of the first entry at which two entry lists differ, or the
/// shorter length.
pub open spec fn first_entry_difference(a: Seq<(Seq<char>, Seq<u8>)>, b: Seq<(Seq<char>, Seq<u8>)>) -> int
    decreases a.len(),
{
    if a.len() == 0 || b.len() == 0 || a[0] != b[0] {
        0
    } else {
        1 + first_entry_difference(a.drop_first(), b.drop_first())
    }
}

/// The first difference between two path-ordered file sets: at the first
/// position where they differ, the smaller path is missing from the other
/// set, or the same path holds different bytes.
pub open spec fn difference_spec(a: Seq<(Seq<char>, Seq<u8>)>, b: Seq<(Seq<char>, Seq<u8>)>) -> (
    int,
    Seq<char>,
    int,
) {
    let i = first_entry_difference(a, b);
    if i < a.len() && i < b.len() {
        if seq_lt(a[i].0, b[i].0) {
            (2, a[i].0, 0)
        } else if seq_lt(b[i].0, a[i].0) {
            (1, b[i].0, 0)
        } else {
            (3, a[i].0, first_byte_difference(a[i].1, b[i].1))
        }
    } else if i < a.len() {
        (2, a[i].0, 0)
    } else if i < b.len() {
        (1, b[i].0, 0)
    } else {
        (0, Seq::empty(), 0)
    }
}

/// The kind, path and offset that a `Difference` reports.
pub open spec fn difference_view(d: Difference) -> (int, Seq<char>, int) {
    match d {
        Difference::MissingFirst(p) => (1, p@, 0),
        Difference::MissingSecond(p) => (2, p@, 0),
        Difference::Byte(p, o) => (3, p@, o as int),
        Difference::Unknown => (0, Seq::empty(), 0),
    }
}

fn first_byte_offset(a: &[u8], b: &[u8]) -> (k: usize)
    ensures
        k == first_byte_difference(a@, b@),
{
    let mut k: usize = 0;
    proof {
        assert(a@.skip(0) =~= a@);
        assert(b@.skip(0) =~= b@);
    }
    while k < a.len() && k < b.len() && a[k] == b[k]
        invariant
            k <= a@.len(),
            k <= b@.len(),
            first_byte_difference(a@, b@) == k + first_byte_difference(
                a@.skip(k as int),
                b@.skip(k as int),
            ),
        decreases a@.len() - k,
    {
        proof {
            assert(a@.skip(k as int).drop_first() =~= a@.skip(k + 1));
            assert(b@.skip(k as int).drop_first() =~= b@.skip(k + 1));
        }
        k = k + 1;
    }
    proof {
        if k < a@.len() && k < b@.len() {
            assert(a@.skip(k as int)[0] != b@.skip(k as int)[0]);
        }
    }
    k
}

fn copy_chars(s: &Vec<char>) -> (out: Vec<char>)
    ensures
        out@ == s@,
{
    let mut out: Vec<char> = Vec::new();
    crate::text::extend_chars(&mut out, s.as_slice());
    out
}

/// Where two file sets first differ, walking both in path order.
pub fn first_difference(left: &FileMap, right: &FileMap) -> (d: Difference)
    ensures
        difference_view(d) == difference_spec(left@, right@),
{
    let a = &left.entries;
    let b = &right.entries;
    let ghost av = left@;
    let ghost bv = right@;
    let mut i: usize = 0;
    proof {
        assert(av.skip(0) =~= av);
        assert(bv.skip(0) =~= bv);
    }
    while i < a.len() && i < b.len()
        invariant
            av == entry_views(a@),
            bv == entry_views(b@),
            av == left@,
            bv == right@,
            i <= av.len(),
            i <= bv.len(),
            first_entry_difference(av, bv) == i + first_entry_difference(
                av.skip(i as int),
                bv.skip(i as int),
            ),
        decreases av.len() - i,
    {
        let c = compare_chars(a[i].0.as_slice(), b[i].0.as_slice());
        proof {
            assert(av[i as int] == (a@[i as int].0@, a@[i as int].1@));
            assert(bv[i as int] == (b@[i as int].0@, b@[i as int].1@));
            assert(av.skip(i as int)[0] == av[i as int]);
            assert(bv.skip(i as int)[0] == bv[i as int]);
        }
        if c == -1 {
            proof {
                lemma_lt_asymmetric(av[i as int].0, bv[i as int].0);
                assert(first_entry_difference(av.skip(i as int), bv.skip(i as int)) == 0);
            }
            return Difference::MissingSecond(copy_chars(&a[i].0));
        }
        if c == 1 {
            proof {
                lemma_lt_asymmetric(bv[i as int].0, av[i as int].0);
                assert(first_entry_difference(av.skip(i as int), bv.skip(i as int)) == 0);
            }
            return Difference::MissingFirst(copy_chars(&b[i].0));
        }
        let offset = first_byte_offset(a[i].1.as_slice(), b[i].1.as_slice());
        if offset < a[i].1.len() || offset < b[i].1.len() {
            proof {
                lemma_lt_irreflexive(av[i as int].0);
                if av[i as int].1 == bv[i as int].1 {
                    assert(first_byte_difference(av[i as int].1, bv[i as int].1) == av[i as int].1.len())
                        by {
                        lemma_first_byte_difference_equal(av[i as int].1);
                    }
                }
                assert(av[i as int] != bv[i as int]);
                assert(first_entry_difference(av.skip(i as int), bv.skip(i as int)) == 0);
            }
            return Difference::Byte(copy_chars(&a[i].0), offset as u64);
        }
        proof {
            lemma_first_byte_difference_prefix(av[i as int].1, bv[i as int].1);
            assert(av[i as int] == bv[i as int]);
            assert(av.skip(i as int).drop_first() =~= av.skip(i + 1));
            assert(bv.skip(i as int).drop_first() =~= bv.skip(i + 1));
        }
        i = i + 1;
    }
    if i < a.len() {
        proof {
            assert(av[i as int].0 == a@[i as int].0@);
        }
        return Difference::MissingSecond(copy_chars(&a[i].0));
    }
    if i < b.len() {
        proof {
            assert(bv[i as int].0 == b@[i as int].0@);
        }
        return Difference::MissingFirst(copy_chars(&b[i].0));
    }
    Difference::Unknown
}

proof fn lemma_first_byte_difference_equal(a: Seq<u8>)
    ensures
        first_byte_difference(a, a) == a.len(),
    decreases a.len(),
{
    if a.len() > 0 {
        lemma_first_byte_difference_equal(a.drop_first());
    }
}

proof fn lemma_first_byte_difference_prefix(a: Seq<u8>, b: Seq<u8>)
    requires
        first_byte_difference(a, b) >= a.len(),
        first_byte_difference(a, b) >= b.len(),
    ensures
        a == b,
    decreases a.len(),
{
    if a.len() > 0 && b.len() > 0 {
        lemma_first_byte_difference_prefix(a.drop_first(), b.drop_first());
        assert(a =~= seq![a[0]] + a.drop_first());
        assert(b =~= seq![b[0]] + b.drop_first());
    } else {
        assert(a =~= b);
    }
}

impl Difference {
    /// The sentence that reports this difference.
    pub fn message(&self) -> (s: String)
        ensures
            s@ == match *self {
                Difference::MissingFirst(p) => "missing first-run artifact `"@ + p@ + "`"@,
                Difference::MissingSecond(p) => "missing second-run artifact `"@ + p@ + "`"@,
                Difference::Byte(p, o) => "artifact `"@ + p@ + "` byte "@ + decimal(o as nat),
                Difference::Unknown => "unknown location"@,
            },
    {
        match self {
            Difference::MissingFirst(p) => {
                let mut s = "missing first-run artifact `".to_owned();
                s.append(string_of(p.as_slice()).as_str());
                s.append("`");
                s
            },
            Difference::MissingSecond(p) => {
                let mut s = "missing second-run artifact `".to_owned();
                s.append(string_of(p.as_slice()).as_str());
                s.append("`");
                s
            },
            Difference::Byte(p, o) => {
                let mut s = "artifact `".to_owned();
                s.append(string_of(p.as_slice()).as_str());
                s.append("` byte ");
                push_decimal(&mut s, *o);
                s
            },
            Difference::Unknown => "unknown location".to_owned(),
        }
    }
}

proof fn lemma_first_entry_difference_props(a: Seq<(Seq<char>, Seq<u8>)>, b: Seq<(Seq<char>, Seq<u8>)>)
    ensures
        0 <= first_entry_difference(a, b) <= a.len(),
        first_entry_difference(a, b) <= b.len(),
        forall|k: int| 0 <= k < first_entry_difference(a, b) ==> a[k] == b[k],
        first_entry_difference(a, b) < a.len() && first_entry_difference(a, b) < b.len() ==> a[first_entry_difference(a, b)]
            != b[first_entry_difference(a, b)],
        first_entry_difference(a, b) == first_entry_difference(b, a),
    decreases a.len(),
{
    if a.len() == 0 || b.len() == 0 || a[0] != b[0] {
    } else {
        lemma_first_entry_difference_props(a.drop_first(), b.drop_first());
        assert forall|k: int| 0 <= k < first_entry_difference(a, b) implies a[k] == b[k] by {
            if k > 0 {
                assert(a.drop_first()[k - 1] == b.drop_first()[k - 1]);
            }
        }
    }
}

proof fn lemma_first_byte_difference_symmetric(a: Seq<u8>, b: Seq<u8>)
    ensures
        first_byte_difference(a, b) == first_byte_difference(b, a),
    decreases a.len(),
{
    if a.len() == 0 || b.len() == 0 || a[0] != b[0] {
    } else {
        lemma_first_byte_difference_symmetric(a.drop_first(), b.drop_first());
    }
}

/// Two file sets have no first difference exactly when they are equal.
pub proof fn lemma_no_difference_iff_equal(a: Seq<(Seq<char>, Seq<u8>)>, b: Seq<(Seq<char>, Seq<u8>)>)
    ensures
        difference_spec(a, b).0 == 0 <==> a == b,
{
    lemma_first_entry_difference_props(a, b);
    let i = first_entry_difference(a, b);
    if difference_spec(a, b).0 == 0 {
        assert(i >= a.len() && i >= b.len());
        assert(a =~= b);
    }
    if a == b {
        assert(!(i < a.len() && i < b.len()));
    }
}

/// The kind that the other order of comparison reports: a path missing
/// from the first set is missing from the second once the sets swap.
pub open spec fn swapped(d: (int, Seq<char>, int)) -> (int, Seq<char>, int) {
    if d.0 == 1 {
        (2, d.1, d.2)
    } else if d.0 == 2 {
        (1, d.1, d.2)
    } else {
        d
    }
}

/// Comparing the sets the other way round reports the same path, with the
/// roles of the two sets exchanged.
pub proof fn lemma_difference_swaps(a: Seq<(Seq<char>, Seq<u8>)>, b: Seq<(Seq<char>, Seq<u8>)>)
    ensures
        difference_spec(b, a) == swapped(difference_spec(a, b)),
{
    lemma_first_entry_difference_props(a, b);
    let i = first_entry_difference(a, b);
    if i < a.len() && i < b.len() {
        if seq_lt(a[i].0, b[i].0) {
            lemma_lt_asymmetric(a[i].0, b[i].0);
        } else if seq_lt(b[i].0, a[i].0) {
        } else {
            lemma_first_byte_difference_symmetric(a[i].1, b[i].1);
            lemma_lt_total(a[i].0, b[i].0);
        }
    }
}

} // verus!
