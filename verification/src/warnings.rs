//! Warning keys: a file, a line and a kind, ordered as the tuple
//! `(String, usize, String)` is, kept in sorted sets and rendered with
//! `{:?}`.
use vstd::prelude::*;
use crate::inventory::{
    compare_chars, lemma_lt_asymmetric, lemma_lt_irreflexive, lemma_lt_total, lemma_lt_transitive,
    seq_lt,
};
use crate::text::{
    debug_str, debug_string, decimal, extend_chars, join, join_of, push_decimal, string_of, views,
};

verus! {

/// A warning key as a plain value.
pub type KeyView = (Seq<char>, int, Seq<char>);

/// A warning key: file, line, kind.
pub type Key = (Vec<char>, usize, Vec<char>);

pub open spec fn key_view(k: Key) -> KeyView {
    (k.0@, k.1 as int, k.2@)
}

pub open spec fn key_views(ks: Seq<Key>) -> Seq<KeyView> {
    ks.map_values(|k: Key| key_view(k))
}

/// The order of the tuple: file first, then line, then kind.
pub open spec fn key_lt(a: KeyView, b: KeyView) -> bool {
    ||| seq_lt(a.0, b.0)
    ||| a.0 == b.0 && a.1 < b.1
    ||| a.0 == b.0 && a.1 == b.1 && seq_lt(a.2, b.2)
}

/// Strictly increasing: sorted, each key once.
pub open spec fn keys_sorted(s: Seq<KeyView>) -> bool {
    forall|i: int, j: int| 0 <= i < j < s.len() ==> key_lt(#[trigger] s[i], #[trigger] s[j])
}

pub proof fn lemma_key_irreflexive(a: KeyView)
    ensures
        !key_lt(a, a),
{
    lemma_lt_irreflexive(a.0);
    lemma_lt_irreflexive(a.2);
}

pub proof fn lemma_key_transitive(a: KeyView, b: KeyView, c: KeyView)
    requires
        key_lt(a, b),
        key_lt(b, c),
    ensures
        key_lt(a, c),
{
    lemma_lt_irreflexive(a.0);
    lemma_lt_irreflexive(b.0);
    if seq_lt(a.0, b.0) && seq_lt(b.0, c.0) {
        lemma_lt_transitive(a.0, b.0, c.0);
    }
    if a.0 == b.0 && b.0 == c.0 && a.1 == b.1 && b.1 == c.1 {
        lemma_lt_transitive(a.2, b.2, c.2);
    }
}

pub proof fn lemma_key_total(a: KeyView, b: KeyView)
    ensures
        key_lt(a, b) || key_lt(b, a) || a == b,
{
    lemma_lt_total(a.0, b.0);
    lemma_lt_total(a.2, b.2);
}

pub proof fn lemma_key_asymmetric(a: KeyView, b: KeyView)
    requires
        key_lt(a, b),
    ensures
        !key_lt(b, a),
        a != b,
{
    if key_lt(b, a) {
        lemma_key_transitive(a, b, a);
        lemma_key_irreflexive(a);
    }
    if a == b {
        lemma_key_irreflexive(a);
    }
}

/// Three-way comparison in `key_lt`: `-1`, `0` or `1`.
pub fn compare_key(a: &Key, b: &Key) -> (r: i8)
    ensures
        r == -1 <==> key_lt(key_view(*a), key_view(*b)),
        r == 0 <==> key_view(*a) == key_view(*b),
        r == 1 <==> key_lt(key_view(*b), key_view(*a)),
        r == -1 || r == 0 || r == 1,
{
    let ghost x = key_view(*a);
    let ghost y = key_view(*b);
    proof {
        lemma_key_total(x, y);
        if key_lt(x, y) {
            lemma_key_asymmetric(x, y);
        }
        if key_lt(y, x) {
            lemma_key_asymmetric(y, x);
        }
    }
    let c: i8 = compare_chars(a.0.as_slice(), b.0.as_slice());
    if c != 0 {
        proof {
            if c == -1 {
                lemma_lt_asymmetric(x.0, y.0);
            } else {
                lemma_lt_asymmetric(y.0, x.0);
            }
        }
        return c;
    }
    if a.1 < b.1 {
        return -1;
    }
    if a.1 > b.1 {
        return 1;
    }
    let d: i8 = compare_chars(a.2.as_slice(), b.2.as_slice());
    proof {
        if d == -1 {
            lemma_lt_asymmetric(x.2, y.2);
        } else if d == 1 {
            lemma_lt_asymmetric(y.2, x.2);
        } else {
            lemma_lt_irreflexive(x.0);
            lemma_lt_irreflexive(x.2);
            assert(x == y);
        }
    }
    d
}

/// A copy of a key.
pub fn copy_key(k: &Key) -> (c: Key)
    ensures
        key_view(c) == key_view(*k),
{
    let mut file: Vec<char> = Vec::new();
    extend_chars(&mut file, k.0.as_slice());
    let mut kind: Vec<char> = Vec::new();
    extend_chars(&mut kind, k.2.as_slice());
    (file, k.1, kind)
}

/// Whether `k` is one of `ks`.
pub fn key_in(ks: &Vec<Key>, k: &Key) -> (b: bool)
    ensures
        b == key_views(ks@).contains(key_view(*k)),
{
    let mut i: usize = 0;
    while i < ks.len()
        invariant
            i <= ks@.len(),
            forall|j: int| 0 <= j < i ==> #[trigger] key_views(ks@)[j] != key_view(*k),
        decreases ks@.len() - i,
    {
        proof {
            assert(key_views(ks@)[i as int] == key_view(ks@[i as int]));
        }
        if compare_key(&ks[i], k) == 0 {
            return true;
        }
        i = i + 1;
    }
    false
}

/// Adds `k` to a strictly sorted list unless it is there already.
pub fn insert_key(out: &mut Vec<Key>, k: Key)
    requires
        keys_sorted(key_views(old(out)@)),
    ensures
        keys_sorted(key_views(final(out)@)),
        forall|x: KeyView| #[trigger] key_views(final(out)@).contains(x) <==> (key_views(
            old(out)@,
        ).contains(x) || x == key_view(k)),
{
    let ghost s = key_views(out@);
    let ghost kv = key_view(k);
    let mut p: usize = 0;
    while p < out.len()
        invariant
            s == key_views(out@),
            kv == key_view(k),
            keys_sorted(s),
            p <= s.len(),
            forall|j: int| 0 <= j < p ==> key_lt(#[trigger] s[j], kv),
        ensures
            s == key_views(out@),
            kv == key_view(k),
            p <= s.len(),
            forall|j: int| 0 <= j < p ==> key_lt(#[trigger] s[j], kv),
            p < s.len() ==> key_lt(kv, s[p as int]),
        decreases s.len() - p,
    {
        proof {
            assert(s[p as int] == key_view(out@[p as int]));
        }
        let c: i8 = compare_key(&out[p], &k);
        if c == 0 {
            proof {
                assert forall|x: KeyView| #[trigger] s.contains(x) <==> (s.contains(x) || x == kv) by {
                    if x == kv {
                        assert(s[p as int] == x);
                    }
                }
            }
            return;
        }
        if c == 1 {
            break;
        }
        p = p + 1;
    }
    proof {
        if p < s.len() {
            assert(s[p as int] == key_view(out@[p as int]));
        }
    }
    out.insert(p, k);
    proof {
        let t = key_views(out@);
        assert(t =~= s.insert(p as int, kv));
        assert forall|a: int, b: int| 0 <= a < b < t.len() implies key_lt(#[trigger] t[a], #[trigger] t[b]) by {
            if b < p {
            } else if a < p && b == p {
            } else if a < p {
                assert(key_lt(s[a], kv));
                if b - 1 > p {
                    assert(key_lt(s[p as int], s[b - 1]));
                    lemma_key_transitive(kv, s[p as int], s[b - 1]);
                }
                lemma_key_transitive(s[a], kv, s[b - 1]);
            } else if a == p {
                if b - 1 > p {
                    assert(key_lt(s[p as int], s[b - 1]));
                    lemma_key_transitive(kv, s[p as int], s[b - 1]);
                }
            } else {
                assert(key_lt(s[a - 1], s[b - 1]));
            }
        }
        assert forall|x: KeyView| #[trigger] t.contains(x) <==> (s.contains(x) || x == kv) by {
            if t.contains(x) {
                let i = choose|i: int| 0 <= i < t.len() && t[i] == x;
                if i < p {
                    assert(s[i] == x);
                } else if i > p {
                    assert(s[i - 1] == x);
                }
            }
            if s.contains(x) {
                let i = choose|i: int| 0 <= i < s.len() && s[i] == x;
                if i < p {
                    assert(t[i] == x);
                } else {
                    assert(t[i + 1] == x);
                }
            }
            if x == kv {
                assert(t[p as int] == x);
            }
        }
    }
}

/// The keys of `ks`, each once, in increasing order.
pub fn sorted_keys(ks: &Vec<Key>) -> (out: Vec<Key>)
    ensures
        keys_sorted(key_views(out@)),
        forall|x: KeyView| #[trigger] key_views(out@).contains(x) <==> key_views(ks@).contains(x),
{
    let ghost v = key_views(ks@);
    let mut out: Vec<Key> = Vec::new();
    let mut i: usize = 0;
    while i < ks.len()
        invariant
            i <= v.len(),
            v == key_views(ks@),
            keys_sorted(key_views(out@)),
            forall|x: KeyView| #[trigger] key_views(out@).contains(x) <==> v.take(i as int).contains(x),
        decreases v.len() - i,
    {
        let k = copy_key(&ks[i]);
        proof {
            assert(key_view(k) == v[i as int]);
        }
        insert_key(&mut out, k);
        proof {
            let t = v.take(i + 1);
            assert(t =~= v.take(i as int).push(v[i as int]));
            assert forall|x: KeyView| #[trigger] key_views(out@).contains(x) <==> t.contains(x) by {
                if v.take(i as int).contains(x) {
                    let j = choose|j: int| 0 <= j < i && v.take(i as int)[j] == x;
                    assert(t[j] == x);
                }
                if t.contains(x) {
                    let j = choose|j: int| 0 <= j < t.len() && t[j] == x;
                    if j < i {
                        assert(v.take(i as int)[j] == x);
                    }
                }
                if x == v[i as int] {
                    assert(t[i as int] == x);
                }
            }
        }
        i = i + 1;
    }
    proof {
        assert(v.take(v.len() as int) =~= v);
    }
    out
}

/// The keys of sorted `a` that are not in `b`, in order.
pub fn keys_missing(a: &Vec<Key>, b: &Vec<Key>) -> (out: Vec<Key>)
    requires
        keys_sorted(key_views(a@)),
    ensures
        keys_sorted(key_views(out@)),
        forall|x: KeyView| #[trigger] key_views(out@).contains(x) <==> (key_views(a@).contains(x)
            && !key_views(b@).contains(x)),
{
    let ghost s = key_views(a@);
    let mut out: Vec<Key> = Vec::new();
    let mut i: usize = 0;
    while i < a.len()
        invariant
            s == key_views(a@),
            keys_sorted(s),
            i <= s.len(),
            keys_sorted(key_views(out@)),
            forall|m: int| 0 <= m < out@.len() ==> exists|j: int| 0 <= j < i && #[trigger] key_views(out@)[m] == s[j],
            forall|x: KeyView| #[trigger] key_views(out@).contains(x) <==> (s.take(i as int).contains(x)
                && !key_views(b@).contains(x)),
        decreases s.len() - i,
    {
        proof {
            assert(s[i as int] == key_view(a@[i as int]));
        }
        let present = key_in(b, &a[i]);
        let ghost before = key_views(out@);
        if !present {
            let k = copy_key(&a[i]);
            out.push(k);
            proof {
                let t = key_views(out@);
                assert(t =~= before.push(s[i as int]));
                assert forall|m: int, n: int| 0 <= m < n < t.len() implies key_lt(#[trigger] t[m], #[trigger] t[n]) by {
                    if n == t.len() - 1 {
                        let j = choose|j: int| 0 <= j < i && before[m] == s[j];
                        assert(key_lt(s[j], s[i as int]));
                    }
                }
                assert forall|m: int| 0 <= m < t.len() implies exists|j: int| 0 <= j < i + 1 && #[trigger] t[m] == s[j] by {
                    if m < before.len() {
                        let j = choose|j: int| 0 <= j < i && before[m] == s[j];
                        assert(t[m] == s[j]);
                    } else {
                        assert(t[m] == s[i as int]);
                    }
                }
            }
        }
        proof {
            let t = s.take(i + 1);
            assert(t =~= s.take(i as int).push(s[i as int]));
            assert forall|x: KeyView| #[trigger] key_views(out@).contains(x) <==> (t.contains(x)
                && !key_views(b@).contains(x)) by {
                if s.take(i as int).contains(x) {
                    let j = choose|j: int| 0 <= j < i && s.take(i as int)[j] == x;
                    assert(t[j] == x);
                }
                if t.contains(x) {
                    let j = choose|j: int| 0 <= j < t.len() && t[j] == x;
                    if j < i {
                        assert(s.take(i as int)[j] == x);
                    }
                }
                if x == s[i as int] {
                    assert(t[i as int] == x);
                    if !present {
                        assert(key_views(out@)[before.len() as int] == x);
                    }
                }
                if !present && key_views(out@).contains(x) && !before.contains(x) {
                    let j = choose|j: int| 0 <= j < key_views(out@).len() && key_views(out@)[j] == x;
                    if j < before.len() {
                        assert(before[j] == x);
                    }
                }
                if !present && before.contains(x) {
                    let j = choose|j: int| 0 <= j < before.len() && before[j] == x;
                    assert(key_views(out@)[j] == x);
                }
            }
        }
        i = i + 1;
    }
    proof {
        assert(s.take(s.len() as int) =~= s);
    }
    out
}

/// How `{:?}` renders a key: a parenthesised tuple of the quoted file,
/// the line and the quoted kind.
pub open spec fn key_debug(k: KeyView) -> Seq<char> {
    "("@ + debug_string(k.0) + ", "@ + decimal(k.1 as nat) + ", "@ + debug_string(k.2) + ")"@
}

/// How `{:?}` renders a list of keys.
pub open spec fn keys_debug(ks: Seq<KeyView>) -> Seq<char> {
    "["@ + join(ks.map_values(|k: KeyView| key_debug(k)), ", "@) + "]"@
}

/// Renders a key with `{:?}`.
fn render_key(k: &Key) -> (out: Vec<char>)
    ensures
        out@ == key_debug(key_view(*k)),
{
    let file = string_of(k.0.as_slice());
    let kind = string_of(k.2.as_slice());
    let mut s = "(".to_owned();
    s.append(debug_str(file.as_str()).as_str());
    s.append(", ");
    push_decimal(&mut s, k.1 as u64);
    s.append(", ");
    s.append(debug_str(kind.as_str()).as_str());
    s.append(")");
    crate::text::chars_of(s.as_str())
}

/// Renders a list of keys with `{:?}`.
pub fn render_keys(ks: &Vec<Key>) -> (s: String)
    ensures
        s@ == keys_debug(key_views(ks@)),
{
    let mut parts: Vec<Vec<char>> = Vec::new();
    let mut i: usize = 0;
    while i < ks.len()
        invariant
            i <= ks@.len(),
            views(parts@) == key_views(ks@).take(i as int).map_values(|k: KeyView| key_debug(k)),
        decreases ks@.len() - i,
    {
        let r = render_key(&ks[i]);
        let ghost before = views(parts@);
        parts.push(r);
        proof {
            assert(views(parts@) =~= before.push(r@));
            assert(key_views(ks@)[i as int] == key_view(ks@[i as int]));
            assert(key_views(ks@).take(i + 1).map_values(|k: KeyView| key_debug(k)) =~= key_views(ks@).take(
                i as int,
            ).map_values(|k: KeyView| key_debug(k)).push(key_debug(key_views(ks@)[i as int])));
        }
        i = i + 1;
    }
    proof {
        assert(key_views(ks@).take(ks@.len() as int) =~= key_views(ks@));
    }
    let sep = crate::text::chars_of(", ");
    let joined = join_of(&parts, sep.as_slice());
    let mut s = "[".to_owned();
    s.append(string_of(joined.as_slice()).as_str());
    s.append("]");
    s
}

} // verus!
