//! Inventories: bounded, duplicate-free, sorted lists of names, and their
//! exact comparison.
use vstd::prelude::*;
use crate::text::views;

verus! {

/// The most entries an inventory may hold.
pub const MAX_INVENTORY: usize = 100_000;

/// Lexicographic order on character sequences, by code point. It is the
/// order of `String` in std, since UTF-8 preserves code point order.
pub open spec fn seq_lt(a: Seq<char>, b: Seq<char>) -> bool
    decreases a.len(),
{
    if a.len() == 0 {
        b.len() > 0
    } else if b.len() == 0 {
        false
    } else if a[0] < b[0] {
        true
    } else if a[0] == b[0] {
        seq_lt(a.drop_first(), b.drop_first())
    } else {
        false
    }
}

/// Strictly increasing in `seq_lt`: sorted and free of duplicates.
pub open spec fn strictly_sorted(s: Seq<Seq<char>>) -> bool {
    forall|i: int, j: int| 0 <= i < j < s.len() ==> seq_lt(#[trigger] s[i], #[trigger] s[j])
}

/// Some value occurs twice.
pub open spec fn has_duplicates(s: Seq<Seq<char>>) -> bool {
    exists|i: int, j: int| 0 <= i < j < s.len() && #[trigger] s[i] == #[trigger] s[j]
}

/// The same values, each counted once.
pub open spec fn same_values(a: Seq<Seq<char>>, b: Seq<Seq<char>>) -> bool {
    forall|x: Seq<char>| a.contains(x) <==> b.contains(x)
}

pub proof fn lemma_lt_irreflexive(a: Seq<char>)
    ensures
        !seq_lt(a, a),
    decreases a.len(),
{
    if a.len() > 0 {
        lemma_lt_irreflexive(a.drop_first());
    }
}

pub proof fn lemma_lt_transitive(a: Seq<char>, b: Seq<char>, c: Seq<char>)
    requires
        seq_lt(a, b),
        seq_lt(b, c),
    ensures
        seq_lt(a, c),
    decreases a.len(),
{
    if a.len() > 0 && b.len() > 0 && c.len() > 0 && a[0] == b[0] && b[0] == c[0] {
        lemma_lt_transitive(a.drop_first(), b.drop_first(), c.drop_first());
    }
}

pub proof fn lemma_lt_total(a: Seq<char>, b: Seq<char>)
    ensures
        seq_lt(a, b) || seq_lt(b, a) || a == b,
    decreases a.len(),
{
    if a.len() > 0 && b.len() > 0 && a[0] == b[0] {
        lemma_lt_total(a.drop_first(), b.drop_first());
        if a.drop_first() == b.drop_first() {
            assert(a =~= seq![a[0]] + a.drop_first());
            assert(b =~= seq![b[0]] + b.drop_first());
        }
    } else if a.len() == 0 && b.len() == 0 {
        assert(a =~= b);
    }
}

pub proof fn lemma_lt_asymmetric(a: Seq<char>, b: Seq<char>)
    requires
        seq_lt(a, b),
    ensures
        !seq_lt(b, a),
        a != b,
{
    if seq_lt(b, a) {
        lemma_lt_transitive(a, b, a);
        lemma_lt_irreflexive(a);
    }
    if a == b {
        lemma_lt_irreflexive(a);
    }
}

/// Three-way comparison in `seq_lt`: `-1`, `0` or `1`.
pub fn compare_chars(a: &[char], b: &[char]) -> (r: i8)
    ensures
        r == -1 <==> seq_lt(a@, b@),
        r == 0 <==> a@ == b@,
        r == 1 <==> seq_lt(b@, a@),
        r == -1 || r == 0 || r == 1,
{
    let mut i: usize = 0;
    proof {
        assert(a@.skip(0) =~= a@);
        assert(b@.skip(0) =~= b@);
        assert(a@.take(0) =~= b@.take(0));
    }
    while i < a.len() && i < b.len()
        invariant
            i <= a@.len(),
            i <= b@.len(),
            a@.take(i as int) == b@.take(i as int),
            seq_lt(a@, b@) == seq_lt(a@.skip(i as int), b@.skip(i as int)),
            seq_lt(b@, a@) == seq_lt(b@.skip(i as int), a@.skip(i as int)),
        decreases a@.len() - i,
    {
        proof {
            assert(a@.skip(i as int)[0] == a@[i as int]);
            assert(b@.skip(i as int)[0] == b@[i as int]);
            assert(a@.skip(i as int).drop_first() =~= a@.skip(i + 1));
            assert(b@.skip(i as int).drop_first() =~= b@.skip(i + 1));
        }
        if a[i] < b[i] {
            proof {
                lemma_lt_asymmetric(a@, b@);
            }
            return -1;
        }
        if b[i] < a[i] {
            proof {
                lemma_lt_asymmetric(b@, a@);
            }
            return 1;
        }
        proof {
            assert(a@.take(i + 1) =~= a@.take(i as int).push(a@[i as int]));
            assert(b@.take(i + 1) =~= b@.take(i as int).push(b@[i as int]));
        }
        i = i + 1;
    }
    proof {
        assert(a@.skip(i as int).len() == 0 || b@.skip(i as int).len() == 0);
    }
    if a.len() == b.len() {
        proof {
            assert(a@ =~= a@.take(i as int));
            assert(b@ =~= b@.take(i as int));
            lemma_lt_irreflexive(a@);
        }
        0
    } else if a.len() < b.len() {
        proof {
            lemma_lt_asymmetric(a@, b@);
        }
        -1
    } else {
        proof {
            lemma_lt_asymmetric(b@, a@);
        }
        1
    }
}

/// Why a list is not an inventory.
#[derive(Clone, Copy, Debug, PartialEq, Eq)]
pub enum InventoryFault {
    /// More than `MAX_INVENTORY` entries.
    TooLarge,
    /// Some entry occurs twice.
    Duplicates,
}

/// Inserts `x` into a strictly sorted list unless it is already present.
fn insert_sorted(out: &mut Vec<Vec<char>>, x: Vec<char>) -> (inserted: bool)
    requires
        strictly_sorted(views(old(out)@)),
    ensures
        inserted <==> !views(old(out)@).contains(x@),
        inserted ==> strictly_sorted(views(final(out)@)),
        inserted ==> forall|y: Seq<char>|
            views(final(out)@).contains(y) <==> (views(old(out)@).contains(y) || y == x@),
        inserted ==> final(out)@.len() == old(out)@.len() + 1,
        !inserted ==> final(out)@ == old(out)@,
{
    let ghost s = views(out@);
    let mut p: usize = 0;
    while p < out.len()
        invariant
            s == views(out@),
            strictly_sorted(s),
            p <= s.len(),
            forall|k: int| 0 <= k < p ==> seq_lt(#[trigger] s[k], x@),
        ensures
            s == views(out@),
            p <= s.len(),
            forall|k: int| 0 <= k < p ==> seq_lt(#[trigger] s[k], x@),
            p < s.len() ==> seq_lt(x@, s[p as int]),
        decreases s.len() - p,
    {
        let c = compare_chars(out[p].as_slice(), x.as_slice());
        proof {
            assert(s[p as int] == out@[p as int]@);
        }
        if c == 0 {
            return false;
        }
        if c == 1 {
            break;
        }
        p = p + 1;
    }
    proof {
        assert forall|k: int| p <= k < s.len() implies seq_lt(x@, #[trigger] s[k]) by {
            if k > p {
                assert(seq_lt(s[p as int], s[k]));
                lemma_lt_transitive(x@, s[p as int], s[k]);
            }
        }
        assert(!s.contains(x@)) by {
            if s.contains(x@) {
                let k = choose|k: int| 0 <= k < s.len() && s[k] == x@;
                if k < p {
                    lemma_lt_irreflexive(x@);
                } else {
                    lemma_lt_irreflexive(x@);
                }
            }
        }
    }
    let ghost xv = x@;
    out.insert(p, x);
    proof {
        let t = views(out@);
        assert(t =~= s.insert(p as int, xv));
        assert forall|i: int, j: int| 0 <= i < j < t.len() implies seq_lt(
            #[trigger] t[i],
            #[trigger] t[j],
        ) by {
            if j < p {
            } else if i < p && j == p {
            } else if i < p && j > p {
                lemma_lt_transitive(t[i], xv, t[j]);
            } else if i == p {
            } else {
            }
        }
        assert forall|y: Seq<char>| t.contains(y) <==> (s.contains(y) || y == xv) by {
            if t.contains(y) {
                let k = choose|k: int| 0 <= k < t.len() && t[k] == y;
                if k < p {
                    assert(s[k] == y);
                } else if k > p {
                    assert(s[k - 1] == y);
                }
            }
            if s.contains(y) {
                let k = choose|k: int| 0 <= k < s.len() && s[k] == y;
                if k < p {
                    assert(t[k] == y);
                } else {
                    assert(t[k + 1] == y);
                }
            }
            if y == xv {
                assert(t[p as int] == y);
            }
        }
    }
    true
}

/// Sorts a list of names, rejecting one that is too large or repeats a name.
/// On success the result is strictly sorted and holds exactly the input's
/// names.
pub fn sorted_unique_chars(values: &Vec<Vec<char>>) -> (r: Result<Vec<Vec<char>>, InventoryFault>)
    ensures
        values@.len() > MAX_INVENTORY ==> r == Err::<Vec<Vec<char>>, InventoryFault>(
            InventoryFault::TooLarge,
        ),
        values@.len() <= MAX_INVENTORY ==> (r is Err <==> has_duplicates(views(values@))),
        r is Err ==> values@.len() > MAX_INVENTORY || r == Err::<Vec<Vec<char>>, InventoryFault>(
            InventoryFault::Duplicates,
        ),
        r matches Ok(out) ==> strictly_sorted(views(out@)) && same_values(
            views(out@),
            views(values@),
        ) && out@.len() == values@.len() && views(out@) == sorted_set(views(values@)),
{
    if values.len() > MAX_INVENTORY {
        return Err(InventoryFault::TooLarge);
    }
    let ghost v = views(values@);
    let mut out: Vec<Vec<char>> = Vec::new();
    let mut i: usize = 0;
    while i < values.len()
        invariant
            v == views(values@),
            values@.len() <= MAX_INVENTORY,
            i <= v.len(),
            strictly_sorted(views(out@)),
            out@.len() == i,
            same_values(views(out@), v.take(i as int)),
            !has_duplicates(v.take(i as int)),
        decreases v.len() - i,
    {
        let mut x: Vec<char> = Vec::new();
        crate::text::extend_chars(&mut x, values[i].as_slice());
        proof {
            assert(x@ == v[i as int]);
        }
        let ghost before = views(out@);
        let inserted = insert_sorted(&mut out, x);
        if !inserted {
            proof {
                let k = choose|k: int| 0 <= k < before.len() && before[k] == v[i as int];
                assert(v.take(i as int).contains(before[k]));
                let m = choose|m: int| 0 <= m < i && v.take(i as int)[m] == before[k];
                assert(v[m] == v[i as int]);
            }
            return Err(InventoryFault::Duplicates);
        }
        proof {
            let t = v.take(i + 1);
            assert(t =~= v.take(i as int).push(v[i as int]));
            assert forall|y: Seq<char>| t.contains(y) <==> (v.take(i as int).contains(y) || y
                == v[i as int]) by {
                if t.contains(y) {
                    let k = choose|k: int| 0 <= k < t.len() && t[k] == y;
                    if k < i {
                        assert(v.take(i as int)[k] == y);
                    }
                }
                if v.take(i as int).contains(y) {
                    let k = choose|k: int| 0 <= k < i && v.take(i as int)[k] == y;
                    assert(t[k] == y);
                }
                if y == v[i as int] {
                    assert(t[i as int] == y);
                }
            }
            assert(same_values(views(out@), t));
            assert(!has_duplicates(t)) by {
                if has_duplicates(t) {
                    let (a, b) = choose|a: int, b: int| 0 <= a < b < t.len() && t[a] == t[b];
                    if b == i {
                        assert(v.take(i as int)[a] == v[i as int]);
                        assert(before.contains(v[i as int]));
                    } else {
                        assert(v.take(i as int)[a] == v.take(i as int)[b]);
                    }
                }
            }
        }
        i = i + 1;
    }
    proof {
        assert(v.take(v.len() as int) =~= v);
        lemma_sorted_set(views(out@), v);
    }
    Ok(out)
}

/// The names of `a` that `b` lacks, in the order of `a`.
pub open spec fn missing_from(a: Seq<Seq<char>>, b: Seq<Seq<char>>) -> Seq<Seq<char>>
    decreases a.len(),
{
    if a.len() == 0 {
        Seq::empty()
    } else if b.contains(a.last()) {
        missing_from(a.drop_last(), b)
    } else {
        missing_from(a.drop_last(), b).push(a.last())
    }
}

/// Whether some name occurs twice.
pub fn repeats_a_name(values: &Vec<Vec<char>>) -> (b: bool)
    ensures
        b == has_duplicates(views(values@)),
{
    let ghost v = views(values@);
    let mut j: usize = 0;
    while j < values.len()
        invariant
            v == views(values@),
            j <= v.len(),
            forall|a: int, b: int| 0 <= a < b < j ==> v[a] != v[b],
        decreases v.len() - j,
    {
        let mut i: usize = 0;
        while i < j
            invariant
                v == views(values@),
                i <= j < v.len(),
                forall|a: int| 0 <= a < i ==> v[a] != v[j as int],
            decreases j - i,
        {
            proof {
                assert(v[i as int] == values@[i as int]@);
                assert(v[j as int] == values@[j as int]@);
            }
            if compare_chars(values[i].as_slice(), values[j].as_slice()) == 0 {
                proof {
                    assert(v[i as int] == v[j as int]);
                }
                return true;
            }
            i = i + 1;
        }
        j = j + 1;
    }
    false
}

/// Whether `x` is one of `items`.
pub fn contains_chars(items: &Vec<Vec<char>>, x: &[char]) -> (b: bool)
    ensures
        b == views(items@).contains(x@),
{
    let mut k: usize = 0;
    while k < items.len()
        invariant
            k <= items@.len(),
            forall|j: int| 0 <= j < k ==> #[trigger] views(items@)[j] != x@,
        decreases items@.len() - k,
    {
        proof {
            assert(views(items@)[k as int] == items@[k as int]@);
        }
        if compare_chars(items[k].as_slice(), x) == 0 {
            return true;
        }
        k = k + 1;
    }
    false
}

/// The names of `a` that `b` lacks, in the order of `a`.
pub fn missing_names(a: &Vec<Vec<char>>, b: &Vec<Vec<char>>) -> (out: Vec<Vec<char>>)
    ensures
        views(out@) == missing_from(views(a@), views(b@)),
{
    let mut out: Vec<Vec<char>> = Vec::new();
    let mut i: usize = 0;
    while i < a.len()
        invariant
            i <= a@.len(),
            views(out@) == missing_from(views(a@).take(i as int), views(b@)),
        decreases a@.len() - i,
    {
        let x = a[i].as_slice();
        proof {
            let t = views(a@).take(i + 1);
            assert(t.drop_last() =~= views(a@).take(i as int));
            assert(t.last() == x@);
        }
        if !contains_chars(b, x) {
            let ghost before = views(out@);
            let mut copy: Vec<char> = Vec::new();
            crate::text::extend_chars(&mut copy, x);
            out.push(copy);
            proof {
                assert(views(out@) =~= before.push(x@));
            }
        }
        i = i + 1;
    }
    proof {
        assert(views(a@).take(a@.len() as int) =~= views(a@));
    }
    out
}

/// Whether two lists of names are equal, element by element.
pub fn lists_equal(a: &Vec<Vec<char>>, b: &Vec<Vec<char>>) -> (r: bool)
    ensures
        r == (views(a@) == views(b@)),
{
    if a.len() != b.len() {
        proof {
            assert(views(a@).len() != views(b@).len());
        }
        return false;
    }
    let mut k: usize = 0;
    while k < a.len()
        invariant
            a@.len() == b@.len(),
            k <= a@.len(),
            forall|j: int| 0 <= j < k ==> #[trigger] views(a@)[j] == views(b@)[j],
        decreases a@.len() - k,
    {
        proof {
            assert(views(a@)[k as int] == a@[k as int]@);
            assert(views(b@)[k as int] == b@[k as int]@);
        }
        if compare_chars(a[k].as_slice(), b[k].as_slice()) != 0 {
            return false;
        }
        k = k + 1;
    }
    proof {
        assert(views(a@) =~= views(b@));
    }
    true
}

/// How two inventories fail to agree.
#[derive(Clone, Debug, PartialEq, Eq)]
pub enum SetMismatch {
    /// One side is too large or repeats a name.
    Invalid(InventoryFault),
    /// Both are valid but differ: the expected names that were not
    /// observed and the observed names that were not expected, each sorted.
    Differ { missing: Vec<Vec<char>>, extra: Vec<Vec<char>> },
}

/// Compares two inventories as sets. Each must hold at most
/// `MAX_INVENTORY` names and no name twice (the expected side is checked
/// first); then they must hold the same names.
pub fn compare_sets(expected: &Vec<Vec<char>>, actual: &Vec<Vec<char>>) -> (r: Result<(), SetMismatch>)
    ensures
        r matches Err(SetMismatch::Invalid(f)) ==> (if expected@.len() > MAX_INVENTORY
            || has_duplicates(views(expected@)) {
            f == (if expected@.len() > MAX_INVENTORY {
                InventoryFault::TooLarge
            } else {
                InventoryFault::Duplicates
            })
        } else {
            f == (if actual@.len() > MAX_INVENTORY {
                InventoryFault::TooLarge
            } else {
                InventoryFault::Duplicates
            })
        }),
        (r matches Err(SetMismatch::Invalid(_))) <==> (expected@.len() > MAX_INVENTORY
            || has_duplicates(views(expected@)) || actual@.len() > MAX_INVENTORY || has_duplicates(
            views(actual@),
        )),
        r is Ok ==> same_values(views(expected@), views(actual@)),
        r matches Err(SetMismatch::Differ { missing, extra }) ==> !same_values(
            views(expected@),
            views(actual@),
        ) && views(missing@) == missing_from(
            sorted_set(views(expected@)),
            sorted_set(views(actual@)),
        ) && views(extra@) == missing_from(
            sorted_set(views(actual@)),
            sorted_set(views(expected@)),
        ),
        !(expected@.len() > MAX_INVENTORY || has_duplicates(views(expected@)) || actual@.len()
            > MAX_INVENTORY || has_duplicates(views(actual@))) ==> (r is Ok <==> same_values(
            views(expected@),
            views(actual@),
        )),
{
    let e = match sorted_unique_chars(expected) {
        Ok(e) => e,
        Err(f) => {
            return Err(SetMismatch::Invalid(f));
        },
    };
    let a = match sorted_unique_chars(actual) {
        Ok(a) => a,
        Err(f) => {
            return Err(SetMismatch::Invalid(f));
        },
    };
    if lists_equal(&e, &a) {
        return Ok(());
    }
    proof {
        if same_values(views(e@), views(a@)) {
            lemma_sorted_same_values_equal(views(e@), views(a@));
        }
        lemma_sorted_set(views(e@), views(expected@));
        lemma_sorted_set(views(a@), views(actual@));
    }
    let missing = missing_names(&e, &a);
    let extra = missing_names(&a, &e);
    Err(SetMismatch::Differ { missing, extra })
}

/// The names of `s`, each once, in increasing order.
pub open spec fn sorted_set(s: Seq<Seq<char>>) -> Seq<Seq<char>> {
    choose|e: Seq<Seq<char>>| strictly_sorted(e) && same_values(e, s)
}

/// A strictly sorted list with the names of `s` is `sorted_set(s)`.
pub proof fn lemma_sorted_set(e: Seq<Seq<char>>, s: Seq<Seq<char>>)
    requires
        strictly_sorted(e),
        same_values(e, s),
    ensures
        sorted_set(s) == e,
{
    let c = sorted_set(s);
    assert(strictly_sorted(c) && same_values(c, s));
    assert(same_values(c, e));
    lemma_sorted_same_values_equal(c, e);
}

/// Two strictly sorted lists with the same values are equal.
pub proof fn lemma_sorted_same_values_equal(a: Seq<Seq<char>>, b: Seq<Seq<char>>)
    requires
        strictly_sorted(a),
        strictly_sorted(b),
        same_values(a, b),
    ensures
        a == b,
    decreases a.len() + b.len(),
{
    if a.len() == 0 || b.len() == 0 {
        if a.len() > 0 {
            assert(a.contains(a[0]));
        }
        if b.len() > 0 {
            assert(b.contains(b[0]));
        }
        assert(a =~= b);
    } else {
        // The first elements are both the least value.
        assert(a.contains(a[0]));
        assert(b.contains(b[0]));
        let i = choose|i: int| 0 <= i < b.len() && b[i] == a[0];
        let j = choose|j: int| 0 <= j < a.len() && a[j] == b[0];
        if i > 0 {
            assert(seq_lt(b[0], b[i]));
            if j > 0 {
                assert(seq_lt(a[0], a[j]));
                lemma_lt_asymmetric(b[0], a[0]);
            } else {
                lemma_lt_irreflexive(b[0]);
            }
        }
        assert(b[0] == a[0]);
        let a1 = a.drop_first();
        let b1 = b.drop_first();
        assert forall|x: Seq<char>| a1.contains(x) <==> b1.contains(x) by {
            if a1.contains(x) {
                let k = choose|k: int| 0 <= k < a1.len() && a1[k] == x;
                assert(a[k + 1] == x);
                assert(seq_lt(a[0], x));
                lemma_lt_asymmetric(a[0], x);
                assert(b.contains(x));
                let m = choose|m: int| 0 <= m < b.len() && b[m] == x;
                assert(m != 0);
                assert(b1[m - 1] == x);
            }
            if b1.contains(x) {
                let k = choose|k: int| 0 <= k < b1.len() && b1[k] == x;
                assert(b[k + 1] == x);
                assert(seq_lt(b[0], x));
                lemma_lt_asymmetric(b[0], x);
                assert(a.contains(x));
                let m = choose|m: int| 0 <= m < a.len() && a[m] == x;
                assert(m != 0);
                assert(a1[m - 1] == x);
            }
        }
        lemma_sorted_same_values_equal(a1, b1);
        assert(a =~= seq![a[0]] + a1);
        assert(b =~= seq![b[0]] + b1);
    }
}

/// `seq_lt` or equal: the order in which lists of names are sorted.
pub open spec fn seq_le(a: Seq<char>, b: Seq<char>) -> bool {
    seq_lt(a, b) || a == b
}

/// The order of names as a relation.
pub open spec fn name_order() -> spec_fn(Seq<char>, Seq<char>) -> bool {
    |a: Seq<char>, b: Seq<char>| seq_le(a, b)
}

/// The names of `s` in nondecreasing order, repeats kept.
pub open spec fn sorted_list(s: Seq<Seq<char>>) -> Seq<Seq<char>> {
    s.sort_by(name_order())
}

pub proof fn lemma_name_order_total()
    ensures
        vstd::relations::total_ordering(name_order()),
{
    let r = name_order();
    assert forall|x: Seq<char>, y: Seq<char>| #[trigger] r(x, y) && #[trigger] r(y, x) implies x
        == y by {
        if x != y {
            lemma_lt_asymmetric(x, y);
        }
    }
    assert forall|x: Seq<char>, y: Seq<char>, z: Seq<char>| #[trigger] r(x, y) && #[trigger] r(
        y,
        z,
    ) implies r(x, z) by {
        if x != y && y != z {
            lemma_lt_transitive(x, y, z);
        }
    }
    assert forall|x: Seq<char>, y: Seq<char>| #[trigger] r(x, y) || #[trigger] r(y, x) by {
        lemma_lt_total(x, y);
    }
}

/// Sorts a list of names, keeping repeats.
pub fn sort_chars(values: &Vec<Vec<char>>) -> (out: Vec<Vec<char>>)
    ensures
        views(out@) == sorted_list(views(values@)),
{
    let ghost v = views(values@);
    let mut out: Vec<Vec<char>> = Vec::new();
    let mut i: usize = 0;
    proof {
        lemma_name_order_total();
        assert(v.take(0).to_multiset() =~= views(out@).to_multiset()) by {
            broadcast use vstd::seq_lib::group_to_multiset_ensures;
            assert(v.take(0) =~= views(out@));
        }
    }
    while i < values.len()
        invariant
            v == views(values@),
            i <= v.len(),
            vstd::relations::sorted_by(views(out@), name_order()),
            views(out@).to_multiset() == v.take(i as int).to_multiset(),
            vstd::relations::total_ordering(name_order()),
        decreases v.len() - i,
    {
        let mut x: Vec<char> = Vec::new();
        crate::text::extend_chars(&mut x, values[i].as_slice());
        let ghost s = views(out@);
        let mut p: usize = 0;
        while p < out.len()
            invariant
                s == views(out@),
                vstd::relations::sorted_by(s, name_order()),
                p <= s.len(),
                forall|k: int| 0 <= k < p ==> seq_le(#[trigger] s[k], x@),
            ensures
                s == views(out@),
                p <= s.len(),
                forall|k: int| 0 <= k < p ==> seq_le(#[trigger] s[k], x@),
                p < s.len() ==> seq_lt(x@, s[p as int]),
            decreases s.len() - p,
        {
            proof {
                assert(s[p as int] == out@[p as int]@);
            }
            if compare_chars(out[p].as_slice(), x.as_slice()) == 1 {
                break;
            }
            p = p + 1;
        }
        let ghost xv = x@;
        out.insert(p, x);
        proof {
            let t = views(out@);
            assert(t =~= s.insert(p as int, xv));
            let r = name_order();
            assert forall|a: int, b: int| 0 <= a < b < t.len() implies #[trigger] r(t[a], t[b]) by {
                if b < p {
                    assert(r(s[a], s[b]));
                } else if a < p && b == p {
                } else if a < p && b > p {
                    assert(r(s[a], xv));
                    assert(r(xv, s[b - 1])) by {
                        if b - 1 > p {
                            assert(r(s[p as int], s[b - 1]));
                            if s[p as int] != s[b - 1] {
                                lemma_lt_transitive(xv, s[p as int], s[b - 1]);
                            }
                        }
                    }
                    assert(t[a] == s[a] && t[b] == s[b - 1]);
                } else if a == p {
                    assert(r(xv, s[b - 1])) by {
                        if b - 1 > p {
                            assert(r(s[p as int], s[b - 1]));
                            if s[p as int] != s[b - 1] {
                                lemma_lt_transitive(xv, s[p as int], s[b - 1]);
                            }
                        }
                    }
                } else {
                    assert(r(s[a - 1], s[b - 1]));
                }
            }
            broadcast use vstd::seq_lib::group_to_multiset_ensures;
            vstd::seq_lib::to_multiset_insert(s, p as int, xv);
            assert(v.take(i + 1) =~= v.take(i as int).push(v[i as int]));
            assert(xv == v[i as int]);
        }
        i = i + 1;
    }
    proof {
        assert(v.take(v.len() as int) =~= v);
        v.lemma_sort_by_ensures(name_order());
        vstd::seq_lib::lemma_sorted_unique(views(out@), v.sort_by(name_order()), name_order());
    }
    out
}

/// The names of a list, each once, in increasing order.
pub fn sorted_set_of(values: &Vec<Vec<char>>) -> (out: Vec<Vec<char>>)
    ensures
        views(out@) == sorted_set(views(values@)),
        strictly_sorted(views(out@)),
        same_values(views(out@), views(values@)),
{
    let ghost v = views(values@);
    let mut out: Vec<Vec<char>> = Vec::new();
    let mut i: usize = 0;
    while i < values.len()
        invariant
            i <= v.len(),
            v == views(values@),
            strictly_sorted(views(out@)),
            forall|y: Seq<char>| views(out@).contains(y) <==> v.take(i as int).contains(y),
        decreases v.len() - i,
    {
        let ghost before = views(out@);
        let x = values[i].clone();
        proof {
            assert(x@ == v[i as int]);
        }
        let inserted = insert_sorted(&mut out, x);
        proof {
            let t = v.take(i + 1);
            assert(t =~= v.take(i as int).push(v[i as int]));
            assert forall|y: Seq<char>| views(out@).contains(y) <==> t.contains(y) by {
                if t.contains(y) {
                    let k = choose|k: int| 0 <= k < t.len() && t[k] == y;
                    if k < i {
                        assert(v.take(i as int)[k] == y);
                    }
                }
                if v.take(i as int).contains(y) {
                    let k = choose|k: int| 0 <= k < i && v.take(i as int)[k] == y;
                    assert(t[k] == y);
                }
                if y == v[i as int] {
                    assert(t[i as int] == y);
                }
                if !inserted {
                    assert(views(out@) == before);
                }
            }
        }
        i = i + 1;
    }
    proof {
        assert(v.take(v.len() as int) =~= v);
        lemma_sorted_set(views(out@), v);
    }
    out
}

} // verus!
