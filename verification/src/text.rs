//! Character-level text operations with exact specifications.
use vstd::prelude::*;
use vstd::string::*;

verus! {

/// The characters of `s`, in order.
pub fn chars_of(s: &str) -> (v: Vec<char>)
    ensures
        v@ == s@,
{
    let mut v: Vec<char> = Vec::new();
    for c in it: s.chars()
        invariant
            v@ == it.seq().take(it.index() as int),
            it.seq() == s@,
    {
        v.push(c);
    }
    v
}

} // verus!

verus! {

/// Appends one character; `String::push` from std.
#[verifier::external_body]
pub fn push_char(s: &mut String, c: char)
    ensures
        final(s)@ == old(s)@.push(c),
{
    s.push(c);
}

/// The decimal digit character for `d < 10`.
pub open spec fn digit_char(d: nat) -> char {
    if d == 0 { '0' } else if d == 1 { '1' } else if d == 2 { '2' } else if d == 3 { '3' }
    else if d == 4 { '4' } else if d == 5 { '5' } else if d == 6 { '6' } else if d == 7 { '7' }
    else if d == 8 { '8' } else { '9' }
}

/// Base-ten rendering of a natural number, without leading zeros.
pub open spec fn decimal(n: nat) -> Seq<char>
    decreases n,
{
    if n < 10 {
        seq![digit_char(n)]
    } else {
        decimal(n / 10).push(digit_char(n % 10))
    }
}

fn digit(d: u64) -> (c: char)
    requires
        d < 10,
    ensures
        c == digit_char(d as nat),
{
    if d == 0 { '0' } else if d == 1 { '1' } else if d == 2 { '2' } else if d == 3 { '3' }
    else if d == 4 { '4' } else if d == 5 { '5' } else if d == 6 { '6' } else if d == 7 { '7' }
    else if d == 8 { '8' } else { '9' }
}

/// Appends the decimal rendering of `n` to `out`.
pub fn push_decimal(out: &mut String, n: u64)
    ensures
        final(out)@ == old(out)@ + decimal(n as nat),
    decreases n,
{
    if n < 10 {
        push_char(out, digit(n));
    } else {
        push_decimal(out, n / 10);
        push_char(out, digit(n % 10));
    }
}

} // verus!

verus! {

/// String equality; `<str as PartialEq>::eq` from std.
#[verifier::external_body]
pub fn str_equal(a: &str, b: &str) -> (res: bool)
    ensures
        res == (a@ == b@),
{
    a == b
}

/// `path` followed by `[index]`, the way diagnostics address array members.
pub open spec fn at_index(path: Seq<char>, index: nat) -> Seq<char> {
    path + "["@ + decimal(index) + "]"@
}

/// Builds `path[index]`.
pub fn indexed_path(path: &str, index: u64) -> (s: String)
    ensures
        s@ == at_index(path@, index as nat),
{
    let mut s = path.to_owned();
    s.append("[");
    push_decimal(&mut s, index);
    s.append("]");
    s
}

} // verus!

verus! {

/// Unicode `White_Space`, the property behind `char::is_whitespace`.
pub open spec fn is_ws(c: char) -> bool {
    ('\u{9}' <= c && c <= '\u{d}') || c == ' ' || c == '\u{85}' || c == '\u{a0}' || c
        == '\u{1680}' || ('\u{2000}' <= c && c <= '\u{200a}') || c == '\u{2028}' || c
        == '\u{2029}' || c == '\u{202f}' || c == '\u{205f}' || c == '\u{3000}'
}

pub fn is_whitespace(c: char) -> (b: bool)
    ensures
        b == is_ws(c),
{
    ('\u{9}' <= c && c <= '\u{d}') || c == ' ' || c == '\u{85}' || c == '\u{a0}' || c
        == '\u{1680}' || ('\u{2000}' <= c && c <= '\u{200a}') || c == '\u{2028}' || c
        == '\u{2029}' || c == '\u{202f}' || c == '\u{205f}' || c == '\u{3000}'
}

/// `str::trim_end`: drops trailing whitespace.
pub open spec fn trim_end(s: Seq<char>) -> Seq<char>
    decreases s.len(),
{
    if s.len() > 0 && is_ws(s.last()) {
        trim_end(s.drop_last())
    } else {
        s
    }
}

/// `str::trim_start`: drops leading whitespace.
pub open spec fn trim_start(s: Seq<char>) -> Seq<char>
    decreases s.len(),
{
    if s.len() > 0 && is_ws(s[0]) {
        trim_start(s.drop_first())
    } else {
        s
    }
}

/// `str::trim`.
pub open spec fn trim(s: Seq<char>) -> Seq<char> {
    trim_end(trim_start(s))
}

/// The number of trailing whitespace characters of `s`.
pub proof fn lemma_trim_end_prefix(s: Seq<char>)
    ensures
        trim_end(s) == s.take(trim_end(s).len() as int),
        trim_end(s).len() <= s.len(),
    decreases s.len(),
{
    if s.len() > 0 && is_ws(s.last()) {
        lemma_trim_end_prefix(s.drop_last());
        assert(s.drop_last().take(trim_end(s).len() as int) =~= s.take(trim_end(s).len() as int));
    } else {
        assert(s.take(s.len() as int) =~= s);
    }
}

/// Length of `s` without trailing whitespace.
pub fn trim_end_len(s: &[char]) -> (n: usize)
    ensures
        n as nat == trim_end(s@).len(),
        n <= s@.len(),
        trim_end(s@) == s@.take(n as int),
{
    let mut n = s.len();
    proof {
        assert(s@.take(n as int) =~= s@);
    }
    while n > 0 && is_whitespace(s[n - 1])
        invariant
            n <= s@.len(),
            trim_end(s@) == trim_end(s@.take(n as int)),
        decreases n,
    {
        proof {
            assert(s@.take(n as int).drop_last() =~= s@.take(n - 1));
        }
        n = n - 1;
    }
    proof {
        lemma_trim_end_prefix(s@);
    }
    n
}

/// Number of leading whitespace characters of `s`.
pub fn trim_start_len(s: &[char]) -> (k: usize)
    ensures
        k <= s@.len(),
        trim_start(s@) == s@.skip(k as int),
{
    let mut k: usize = 0;
    proof {
        assert(s@.skip(0) =~= s@);
    }
    while k < s.len() && is_whitespace(s[k])
        invariant
            k <= s@.len(),
            trim_start(s@) == trim_start(s@.skip(k as int)),
        decreases s@.len() - k,
    {
        proof {
            assert(s@.skip(k as int).drop_first() =~= s@.skip(k + 1));
        }
        k = k + 1;
    }
    k
}

/// Whether `p` occurs in `s` starting at index `i`.
pub open spec fn occurs_at(s: Seq<char>, p: Seq<char>, i: int) -> bool {
    0 <= i && i + p.len() <= s.len() && s.subrange(i, i + p.len()) == p
}

pub open spec fn starts_with(s: Seq<char>, p: Seq<char>) -> bool {
    occurs_at(s, p, 0)
}

pub open spec fn ends_with(s: Seq<char>, p: Seq<char>) -> bool {
    occurs_at(s, p, s.len() - p.len())
}

/// The first index at or after `from` where `p` occurs.
pub open spec fn find_from(s: Seq<char>, p: Seq<char>, from: int) -> Option<int>
    decreases s.len() + 1 - from,
{
    if from < 0 || from + p.len() > s.len() {
        None
    } else if occurs_at(s, p, from) {
        Some(from)
    } else {
        find_from(s, p, from + 1)
    }
}

/// `str::find`: the first occurrence of `p` in `s`.
pub open spec fn find(s: Seq<char>, p: Seq<char>) -> Option<int> {
    find_from(s, p, 0)
}

pub open spec fn contains(s: Seq<char>, p: Seq<char>) -> bool {
    find(s, p) is Some
}

/// Whether `p` occurs at index `i`.
pub fn matches_at(s: &[char], p: &[char], i: usize) -> (b: bool)
    ensures
        b == occurs_at(s@, p@, i as int),
{
    if i > s.len() || p.len() > s.len() - i {
        return false;
    }
    let mut k: usize = 0;
    while k < p.len()
        invariant
            i + p@.len() <= s@.len(),
            s@.len() == s.len(),
            k <= p@.len(),
            forall|j: int| 0 <= j < k ==> s@[i + j] == p@[j],
        decreases p@.len() - k,
    {
        if s[i + k] != p[k] {
            proof {
                assert(s@.subrange(i as int, i + p@.len())[k as int] != p@[k as int]);
            }
            return false;
        }
        k = k + 1;
    }
    proof {
        assert(s@.subrange(i as int, i + p@.len()) =~= p@);
    }
    true
}

pub proof fn lemma_find_from_props(s: Seq<char>, p: Seq<char>, from: int)
    requires
        from >= 0,
    ensures
        match find_from(s, p, from) {
            Some(i) => from <= i && occurs_at(s, p, i) && forall|j: int|
                from <= j < i ==> !occurs_at(s, p, j),
            None => forall|j: int| from <= j ==> !occurs_at(s, p, j),
        },
    decreases s.len() + 1 - from,
{
    if from + p.len() > s.len() {
    } else if occurs_at(s, p, from) {
    } else {
        lemma_find_from_props(s, p, from + 1);
    }
}

/// The first occurrence of `p` in `s` at or after `from`.
pub fn find_in(s: &[char], p: &[char], from: usize) -> (r: Option<usize>)
    ensures
        match r {
            Some(i) => find_from(s@, p@, from as int) == Some(i as int),
            None => find_from(s@, p@, from as int) is None,
        },
{
    if p.len() > s.len() {
        return None;
    }
    let last = s.len() - p.len();
    let mut i = from;
    while i <= last
        invariant
            last == s@.len() - p@.len(),
            from <= i,
            find_from(s@, p@, from as int) == find_from(s@, p@, i as int),
        decreases last + 1 - i,
    {
        if matches_at(s, p, i) {
            return Some(i);
        }
        if i == last {
            proof {
                assert(find_from(s@, p@, i + 1) is None);
            }
            return None;
        }
        i = i + 1;
    }
    None
}

/// Collects characters into a `String`.
pub fn string_of(chars: &[char]) -> (s: String)
    ensures
        s@ == chars@,
{
    let mut s = String::new();
    let mut i: usize = 0;
    while i < chars.len()
        invariant
            i <= chars@.len(),
            s@ == chars@.take(i as int),
        decreases chars@.len() - i,
    {
        push_char(&mut s, chars[i]);
        proof {
            assert(chars@.take(i + 1) =~= chars@.take(i as int).push(chars@[i as int]));
        }
        i = i + 1;
    }
    proof {
        assert(chars@.take(chars@.len() as int) =~= chars@);
    }
    s
}

/// Appends a slice of characters to a vector.
pub fn extend_chars(out: &mut Vec<char>, chars: &[char])
    ensures
        final(out)@ == old(out)@ + chars@,
{
    let mut i: usize = 0;
    while i < chars.len()
        invariant
            i <= chars@.len(),
            out@ == old(out)@ + chars@.take(i as int),
        decreases chars@.len() - i,
    {
        out.push(chars[i]);
        proof {
            assert(chars@.take(i + 1) =~= chars@.take(i as int).push(chars@[i as int]));
            assert(old(out)@ + chars@.take(i + 1) =~= old(out)@ + chars@.take(i as int) + seq![chars@[i as int]]);
        }
        i = i + 1;
    }
    proof {
        assert(chars@.take(chars@.len() as int) =~= chars@);
    }
}

/// Appends `chars[from..to]` to a vector.
pub fn extend_range(out: &mut Vec<char>, chars: &[char], from: usize, to: usize)
    requires
        from <= to <= chars@.len(),
    ensures
        final(out)@ == old(out)@ + chars@.subrange(from as int, to as int),
{
    let mut i: usize = from;
    while i < to
        invariant
            from <= i <= to <= chars@.len(),
            out@ == old(out)@ + chars@.subrange(from as int, i as int),
        decreases to - i,
    {
        out.push(chars[i]);
        proof {
            assert(old(out)@ + chars@.subrange(from as int, i + 1) =~= old(out)@ + chars@.subrange(
                from as int,
                i as int,
            ) + seq![chars@[i as int]]);
        }
        i = i + 1;
    }
}

/// `str::trim`.
pub fn trim_chars(s: &[char]) -> (out: Vec<char>)
    ensures
        out@ == trim(s@),
{
    let k = trim_start_len(s);
    let mut rest: Vec<char> = Vec::new();
    extend_range(&mut rest, s, k, s.len());
    let n = trim_end_len(rest.as_slice());
    let mut kept: Vec<char> = Vec::new();
    extend_range(&mut kept, rest.as_slice(), 0, n);
    proof {
        assert(rest@ =~= s@.skip(k as int));
        assert(kept@ =~= rest@.take(n as int));
    }
    kept
}

/// `str::replace` for a non-empty pattern: every non-overlapping
/// occurrence of `from`, scanning left to right, becomes `to`.
pub open spec fn replace(s: Seq<char>, from: Seq<char>, to: Seq<char>) -> Seq<char>
    decreases s.len(),
{
    if from.len() == 0 {
        replace_empty(s, to)
    } else {
        match find(s, from) {
            Some(i) => if 0 <= i && i + from.len() <= s.len() {
                s.take(i) + to + replace(s.skip(i + from.len()), from, to)
            } else {
                s
            },
            None => s,
        }
    }
}

/// `str::replace` with an empty pattern: `to` before every character and
/// once more at the end.
pub open spec fn replace_empty(s: Seq<char>, to: Seq<char>) -> Seq<char>
    decreases s.len(),
{
    if s.len() == 0 {
        to
    } else {
        to + seq![s[0]] + replace_empty(s.drop_first(), to)
    }
}

proof fn lemma_find_skip(s: Seq<char>, p: Seq<char>, k: int)
    requires
        0 <= k <= s.len(),
        forall|j: int| 0 <= j < k ==> !occurs_at(s, p, j),
    ensures
        find(s, p) == match find(s.skip(k), p) {
            Some(i) => Some(i + k),
            None => None::<int>,
        },
{
    lemma_find_from_props(s, p, 0);
    lemma_find_from_props(s.skip(k), p, 0);
    assert forall|j: int| j >= 0 implies occurs_at(s.skip(k), p, j) == occurs_at(s, p, j + k) by {
        if j + p.len() <= s.skip(k).len() {
            assert(s.skip(k).subrange(j, j + p.len()) =~= s.subrange(j + k, j + k + p.len()));
        }
    }
    match find(s, p) {
        Some(i) => {
            assert(i >= k);
            assert(occurs_at(s.skip(k), p, i - k));
            match find(s.skip(k), p) {
                Some(i2) => {
                    assert(occurs_at(s, p, i2 + k));
                    if i2 + k < i {
                        assert(!occurs_at(s, p, i2 + k));
                    }
                    if i2 + k > i {
                        assert(!occurs_at(s.skip(k), p, i - k));
                    }
                },
                None => {},
            }
        },
        None => {
            match find(s.skip(k), p) {
                Some(i2) => {
                    assert(occurs_at(s, p, i2 + k));
                },
                None => {},
            }
        },
    }
}

proof fn lemma_find_from_shift(s: Seq<char>, p: Seq<char>, i: int, j: int)
    requires
        0 <= i <= s.len(),
        0 <= j,
    ensures
        find_from(s, p, i + j) == match find_from(s.skip(i), p, j) {
            Some(k) => Some(k + i),
            None => None::<int>,
        },
    decreases s.len() + 1 - i - j,
{
    if i + j + p.len() > s.len() {
    } else {
        assert(s.skip(i).subrange(j, j + p.len()) =~= s.subrange(i + j, i + j + p.len()));
        if !occurs_at(s, p, i + j) {
            lemma_find_from_shift(s, p, i, j + 1);
        }
    }
}

/// `str::replace`.
pub fn replace_chars(s: &[char], from: &[char], to: &[char]) -> (out: Vec<char>)
    ensures
        out@ == replace(s@, from@, to@),
{
    let mut out: Vec<char> = Vec::new();
    if from.len() == 0 {
        let mut i: usize = 0;
        proof {
            assert(s@.skip(0) =~= s@);
            assert(out@ + replace_empty(s@.skip(0), to@) =~= replace(s@, from@, to@));
        }
        while i < s.len()
            invariant
                i <= s@.len(),
                from@.len() == 0,
                out@ + replace_empty(s@.skip(i as int), to@) == replace(s@, from@, to@),
            decreases s@.len() - i,
        {
            let ghost before = out@;
            proof {
                assert(s@.skip(i as int).drop_first() =~= s@.skip(i + 1));
                assert(s@.skip(i as int)[0] == s@[i as int]);
            }
            extend_chars(&mut out, to);
            out.push(s[i]);
            proof {
                assert(out@ + replace_empty(s@.skip(i + 1), to@) =~= before + replace_empty(
                    s@.skip(i as int),
                    to@,
                ));
            }
            i = i + 1;
        }
        proof {
            assert(s@.skip(s@.len() as int) =~= Seq::<char>::empty());
        }
        extend_chars(&mut out, to);
        return out;
    }
    let mut i: usize = 0;
    proof {
        assert(s@.skip(0) =~= s@);
        assert(out@ + replace(s@.skip(0), from@, to@) =~= replace(s@, from@, to@));
    }
    while i <= s.len()
        invariant
            i <= s@.len(),
            from@.len() > 0,
            out@ + replace(s@.skip(i as int), from@, to@) == replace(s@, from@, to@),
        decreases s@.len() - i,
    {
        let ghost before = out@;
        proof {
            lemma_find_from_shift(s@, from@, i as int, 0);
        }
        match find_in(s, from, i) {
            None => {
                extend_range(&mut out, s, i, s.len());
                proof {
                    assert(s@.subrange(i as int, s@.len() as int) =~= s@.skip(i as int));
                }
                return out;
            },
            Some(j) => {
                proof {
                    lemma_find_from_props(s@, from@, i as int);
                }
                extend_range(&mut out, s, i, j);
                extend_chars(&mut out, to);
                proof {
                    let rest = s@.skip(i as int);
                    assert(rest.take(j - i) =~= s@.subrange(i as int, j as int));
                    assert(rest.skip(j - i + from@.len()) =~= s@.skip(j + from@.len()));
                    assert(out@ + replace(s@.skip(j + from@.len()), from@, to@) =~= before
                        + replace(rest, from@, to@));
                }
                i = j + from.len();
            },
        }
    }
    out
}


/// A line without its `\r` terminator half.
pub open spec fn strip_cr(t: Seq<char>) -> Seq<char> {
    if t.len() > 0 && t.last() == '\r' {
        t.drop_last()
    } else {
        t
    }
}

/// `str::lines` continued from a partially read line `cur`.
pub open spec fn lines_acc(s: Seq<char>, cur: Seq<char>) -> Seq<Seq<char>>
    decreases s.len(),
{
    if s.len() == 0 {
        if cur.len() == 0 {
            Seq::empty()
        } else {
            seq![cur]
        }
    } else if s[0] == '\n' {
        seq![strip_cr(cur)] + lines_acc(s.drop_first(), Seq::empty())
    } else {
        lines_acc(s.drop_first(), cur.push(s[0]))
    }
}

/// `str::lines`: split at `\n` or `\r\n`; a final terminator is optional.
pub open spec fn lines(s: Seq<char>) -> Seq<Seq<char>> {
    lines_acc(s, Seq::empty())
}

/// The views of a vector of character vectors.
pub open spec fn views(v: Seq<Vec<char>>) -> Seq<Seq<char>> {
    v.map_values(|x: Vec<char>| x@)
}

/// `str::lines`.
pub fn lines_of(s: &[char]) -> (out: Vec<Vec<char>>)
    ensures
        views(out@) == lines(s@),
{
    let mut out: Vec<Vec<char>> = Vec::new();
    let mut cur: Vec<char> = Vec::new();
    let mut i: usize = 0;
    proof {
        assert(s@.skip(0) =~= s@);
        assert(views(out@) + lines_acc(s@.skip(0), cur@) =~= lines(s@));
    }
    while i < s.len()
        invariant
            i <= s@.len(),
            views(out@) + lines_acc(s@.skip(i as int), cur@) == lines(s@),
        decreases s@.len() - i,
    {
        let ghost before = views(out@);
        let ghost cur0 = cur@;
        proof {
            assert(s@.skip(i as int).drop_first() =~= s@.skip(i + 1));
            assert(s@.skip(i as int)[0] == s@[i as int]);
        }
        if s[i] == '\n' {
            let n = cur.len();
            if n > 0 && cur[n - 1] == '\r' {
                cur.pop();
            }
            proof {
                assert(cur@ =~= strip_cr(cur0));
            }
            out.push(cur);
            cur = Vec::new();
            proof {
                assert(views(out@) =~= before.push(strip_cr(cur0)));
                assert(views(out@) + lines_acc(s@.skip(i + 1), cur@) =~= before + lines_acc(
                    s@.skip(i as int),
                    cur0,
                ));
            }
        } else {
            cur.push(s[i]);
        }
        i = i + 1;
    }
    proof {
        assert(s@.skip(i as int) =~= Seq::<char>::empty());
    }
    if cur.len() > 0 {
        let ghost before = views(out@);
        out.push(cur);
        proof {
            assert(views(out@) =~= before.push(cur@));
        }
    } else {
        proof {
            assert(views(out@) =~= views(out@) + Seq::<Seq<char>>::empty());
        }
    }
    out
}

/// Maximal runs of non-whitespace characters, continued from a partial run.
pub open spec fn words_acc(s: Seq<char>, cur: Seq<char>) -> Seq<Seq<char>>
    decreases s.len(),
{
    if s.len() == 0 {
        if cur.len() == 0 {
            Seq::empty()
        } else {
            seq![cur]
        }
    } else if is_ws(s[0]) {
        (if cur.len() == 0 {
            Seq::empty()
        } else {
            seq![cur]
        }) + words_acc(s.drop_first(), Seq::empty())
    } else {
        words_acc(s.drop_first(), cur.push(s[0]))
    }
}

/// `str::split_whitespace`.
pub open spec fn words(s: Seq<char>) -> Seq<Seq<char>> {
    words_acc(s, Seq::empty())
}

/// `str::split_whitespace`.
pub fn words_of(s: &[char]) -> (out: Vec<Vec<char>>)
    ensures
        views(out@) == words(s@),
{
    let mut out: Vec<Vec<char>> = Vec::new();
    let mut cur: Vec<char> = Vec::new();
    let mut i: usize = 0;
    proof {
        assert(s@.skip(0) =~= s@);
        assert(views(out@) + words_acc(s@.skip(0), cur@) =~= words(s@));
    }
    while i < s.len()
        invariant
            i <= s@.len(),
            views(out@) + words_acc(s@.skip(i as int), cur@) == words(s@),
        decreases s@.len() - i,
    {
        let ghost before = views(out@);
        let ghost cur0 = cur@;
        proof {
            assert(s@.skip(i as int).drop_first() =~= s@.skip(i + 1));
            assert(s@.skip(i as int)[0] == s@[i as int]);
        }
        if is_whitespace(s[i]) {
            proof {
                assert(is_ws(s@.skip(i as int)[0]));
            }
            if cur.len() > 0 {
                out.push(cur);
                cur = Vec::new();
                proof {
                    assert(views(out@) =~= before.push(cur0));
                    assert(views(out@) + words_acc(s@.skip(i + 1), cur@) =~= before + words_acc(
                        s@.skip(i as int),
                        cur0,
                    ));
                }
            } else {
                proof {
                    assert(cur@ =~= Seq::<char>::empty());
                    assert(words_acc(s@.skip(i as int), cur0) =~= words_acc(s@.skip(i + 1), Seq::<char>::empty()));
                    assert(views(out@) + words_acc(s@.skip(i + 1), cur@) =~= before + words_acc(
                        s@.skip(i as int),
                        cur0,
                    ));
                }
            }
        } else {
            cur.push(s[i]);
        }
        i = i + 1;
    }
    proof {
        assert(s@.skip(i as int) =~= Seq::<char>::empty());
    }
    if cur.len() > 0 {
        let ghost before = views(out@);
        out.push(cur);
        proof {
            assert(views(out@) =~= before.push(cur@));
        }
    } else {
        proof {
            assert(views(out@) =~= views(out@) + Seq::<Seq<char>>::empty());
        }
    }
    out
}

/// ASCII whitespace: space, tab, line feed, form feed, carriage return.
pub open spec fn is_ascii_ws(c: char) -> bool {
    c == ' ' || c == '\t' || c == '\n' || c == '\u{c}' || c == '\r'
}

/// Whether `c` is ASCII whitespace.
pub fn is_ascii_space(c: char) -> (b: bool)
    ensures
        b == is_ascii_ws(c),
{
    c == ' ' || c == '\t' || c == '\n' || c == '\u{c}' || c == '\r'
}

/// Maximal runs of characters other than ASCII whitespace, continued from a partial run.
pub open spec fn ascii_words_acc(s: Seq<char>, cur: Seq<char>) -> Seq<Seq<char>>
    decreases s.len(),
{
    if s.len() == 0 {
        if cur.len() == 0 {
            Seq::empty()
        } else {
            seq![cur]
        }
    } else if is_ascii_ws(s[0]) {
        (if cur.len() == 0 {
            Seq::empty()
        } else {
            seq![cur]
        }) + ascii_words_acc(s.drop_first(), Seq::empty())
    } else {
        ascii_words_acc(s.drop_first(), cur.push(s[0]))
    }
}

/// `str::split_ascii_whitespace`.
pub open spec fn ascii_words(s: Seq<char>) -> Seq<Seq<char>> {
    ascii_words_acc(s, Seq::empty())
}

/// `str::split_ascii_whitespace`.
pub fn ascii_words_of(s: &[char]) -> (out: Vec<Vec<char>>)
    ensures
        views(out@) == ascii_words(s@),
{
    let mut out: Vec<Vec<char>> = Vec::new();
    let mut cur: Vec<char> = Vec::new();
    let mut i: usize = 0;
    proof {
        assert(s@.skip(0) =~= s@);
        assert(views(out@) + ascii_words_acc(s@.skip(0), cur@) =~= ascii_words(s@));
    }
    while i < s.len()
        invariant
            i <= s@.len(),
            views(out@) + ascii_words_acc(s@.skip(i as int), cur@) == ascii_words(s@),
        decreases s@.len() - i,
    {
        let ghost before = views(out@);
        let ghost cur0 = cur@;
        proof {
            assert(s@.skip(i as int).drop_first() =~= s@.skip(i + 1));
            assert(s@.skip(i as int)[0] == s@[i as int]);
        }
        if is_ascii_space(s[i]) {
            proof {
                assert(is_ascii_ws(s@.skip(i as int)[0]));
            }
            if cur.len() > 0 {
                out.push(cur);
                cur = Vec::new();
                proof {
                    assert(views(out@) =~= before.push(cur0));
                    assert(views(out@) + ascii_words_acc(s@.skip(i + 1), cur@) =~= before + ascii_words_acc(
                        s@.skip(i as int),
                        cur0,
                    ));
                }
            } else {
                proof {
                    assert(cur@ =~= Seq::<char>::empty());
                    assert(ascii_words_acc(s@.skip(i as int), cur0) =~= ascii_words_acc(s@.skip(i + 1), Seq::<char>::empty()));
                    assert(views(out@) + ascii_words_acc(s@.skip(i + 1), cur@) =~= before + ascii_words_acc(
                        s@.skip(i as int),
                        cur0,
                    ));
                }
            }
        } else {
            cur.push(s[i]);
        }
        i = i + 1;
    }
    proof {
        assert(s@.skip(i as int) =~= Seq::<char>::empty());
    }
    if cur.len() > 0 {
        let ghost before = views(out@);
        out.push(cur);
        proof {
            assert(views(out@) =~= before.push(cur@));
        }
    } else {
        proof {
            assert(views(out@) =~= views(out@) + Seq::<Seq<char>>::empty());
        }
    }
    out
}

/// `str::split` with a non-empty string pattern.
pub open spec fn split(s: Seq<char>, p: Seq<char>) -> Seq<Seq<char>>
    decreases s.len(),
{
    if p.len() == 0 {
        seq![s]
    } else {
        match find(s, p) {
            Some(i) => if 0 <= i && i + p.len() <= s.len() {
                seq![s.take(i)] + split(s.skip(i + p.len()), p)
            } else {
                seq![s]
            },
            None => seq![s],
        }
    }
}

/// Splitting always yields at least one piece.
pub proof fn lemma_split_nonempty(s: Seq<char>, p: Seq<char>)
    ensures
        split(s, p).len() > 0,
{
}

/// `str::split` with a non-empty string pattern.
pub fn split_of(s: &[char], p: &[char]) -> (out: Vec<Vec<char>>)
    requires
        p@.len() > 0,
    ensures
        views(out@) == split(s@, p@),
{
    let mut out: Vec<Vec<char>> = Vec::new();
    let mut i: usize = 0;
    proof {
        assert(s@.skip(0) =~= s@);
        assert(views(out@) + split(s@.skip(0), p@) =~= split(s@, p@));
    }
    while i <= s.len()
        invariant
            i <= s@.len(),
            p@.len() > 0,
            views(out@) + split(s@.skip(i as int), p@) == split(s@, p@),
        decreases s@.len() - i,
    {
        let ghost before = views(out@);
        proof {
            lemma_find_from_shift(s@, p@, i as int, 0);
        }
        match find_in(s, p, i) {
            None => {
                let mut piece: Vec<char> = Vec::new();
                extend_range(&mut piece, s, i, s.len());
                out.push(piece);
                proof {
                    assert(piece@ =~= s@.skip(i as int));
                    assert(views(out@) =~= before.push(s@.skip(i as int)));
                }
                return out;
            },
            Some(j) => {
                proof {
                    lemma_find_from_props(s@, p@, i as int);
                }
                let mut piece: Vec<char> = Vec::new();
                extend_range(&mut piece, s, i, j);
                out.push(piece);
                proof {
                    let rest = s@.skip(i as int);
                    assert(rest.take(j - i) =~= s@.subrange(i as int, j as int));
                    assert(rest.skip(j - i + p@.len()) =~= s@.skip(j + p@.len()));
                    assert(views(out@) =~= before.push(s@.subrange(i as int, j as int)));
                    assert(views(out@) + split(s@.skip(j + p@.len()), p@) =~= before + split(
                        rest,
                        p@,
                    ));
                }
                i = j + p.len();
            },
        }
    }
    out
}

/// `str::split_once` with a non-empty pattern.
pub open spec fn split_once(s: Seq<char>, p: Seq<char>) -> Option<(Seq<char>, Seq<char>)> {
    match find(s, p) {
        Some(i) => Some((s.take(i), s.skip(i + p.len()))),
        None => None,
    }
}

/// `str::split_once`.
pub fn split_once_of(s: &[char], p: &[char]) -> (r: Option<(Vec<char>, Vec<char>)>)
    ensures
        match r {
            Some((a, b)) => split_once(s@, p@) == Some((a@, b@)),
            None => split_once(s@, p@) is None,
        },
{
    match find_in(s, p, 0) {
        None => None,
        Some(i) => {
            proof {
                lemma_find_from_props(s@, p@, 0);
                assert(occurs_at(s@, p@, i as int));
                assert(i + p@.len() <= s@.len());
                assert(p@.len() == p.len() && s@.len() == s.len());
            }
            let mut a: Vec<char> = Vec::new();
            extend_range(&mut a, s, 0, i);
            let end: usize = i + p.len();
            let mut b: Vec<char> = Vec::new();
            extend_range(&mut b, s, end, s.len());
            proof {
                assert(a@ =~= s@.take(i as int));
                assert(b@ =~= s@.skip(i + p@.len()));
            }
            Some((a, b))
        },
    }
}

/// Items joined by a separator, as `[T]::join`.
pub open spec fn join(items: Seq<Seq<char>>, sep: Seq<char>) -> Seq<char>
    decreases items.len(),
{
    if items.len() == 0 {
        Seq::empty()
    } else if items.len() == 1 {
        items[0]
    } else {
        join(items.drop_last(), sep) + sep + items.last()
    }
}

/// `[T]::join`.
pub fn join_of(items: &Vec<Vec<char>>, sep: &[char]) -> (out: Vec<char>)
    ensures
        out@ == join(views(items@), sep@),
{
    let mut out: Vec<char> = Vec::new();
    let mut i: usize = 0;
    while i < items.len()
        invariant
            i <= items@.len(),
            out@ == join(views(items@).take(i as int), sep@),
        decreases items@.len() - i,
    {
        let ghost before = out@;
        if i > 0 {
            extend_chars(&mut out, sep);
        }
        extend_chars(&mut out, items[i].as_slice());
        proof {
            let t = views(items@).take(i + 1);
            assert(t.drop_last() =~= views(items@).take(i as int));
            assert(t.last() == items@[i as int]@);
            if i == 0 {
                assert(before =~= Seq::<char>::empty());
                assert(out@ =~= t[0]);
            }
        }
        i = i + 1;
    }
    proof {
        assert(views(items@).take(items@.len() as int) =~= views(items@));
    }
    out
}

} // verus!

verus! {

/// What `String::from_utf8_lossy` makes of a byte string: the decoded text,
/// with each maximal invalid sequence replaced by U+FFFD.
pub uninterp spec fn lossy_utf8(bytes: Seq<u8>) -> Seq<char>;

/// `String::from_utf8_lossy`. Its documentation promises that valid UTF-8
/// is decoded unchanged; what it substitutes in invalid input is named, not
/// spelled out.
#[verifier::external_body]
pub fn utf8_lossy(bytes: &[u8]) -> (s: String)
    ensures
        s@ == lossy_utf8(bytes@),
        vstd::utf8::valid_utf8(bytes@) ==> s@ == vstd::utf8::decode_utf8(bytes@),
{
    String::from_utf8_lossy(bytes).into_owned()
}

/// `std::str::from_utf8`: the decoded text exactly when `bytes` is UTF-8.
#[verifier::external_body]
pub fn utf8_decode(bytes: &[u8]) -> (r: Option<String>)
    ensures
        r is Some <==> vstd::utf8::valid_utf8(bytes@),
        r matches Some(s) ==> s@ == vstd::utf8::decode_utf8(bytes@),
{
    std::str::from_utf8(bytes).ok().map(str::to_owned)
}

/// The UTF-8 encoding of a character sequence, as bytes.
pub fn utf8_bytes(chars: &[char]) -> (out: Vec<u8>)
    ensures
        out@ == vstd::utf8::encode_utf8(chars@),
{
    let s = string_of(chars);
    let mut out: Vec<u8> = Vec::new();
    out.extend_from_slice(s.as_str().as_bytes());
    out
}

} // verus!

verus! {

/// The views of a vector of strings.
pub open spec fn string_views(v: Seq<String>) -> Seq<Seq<char>> {
    v.map_values(|s: String| s@)
}

/// The characters of each string.
pub fn char_lists(v: &Vec<String>) -> (out: Vec<Vec<char>>)
    ensures
        views(out@) == string_views(v@),
        out@.len() == v@.len(),
{
    let mut out: Vec<Vec<char>> = Vec::new();
    let mut i: usize = 0;
    while i < v.len()
        invariant
            i <= v@.len(),
            views(out@) == string_views(v@).take(i as int),
        decreases v@.len() - i,
    {
        let ghost before = views(out@);
        let c = chars_of(v[i].as_str());
        out.push(c);
        proof {
            assert(views(out@) =~= before.push(c@));
            assert(string_views(v@).take(i + 1) =~= string_views(v@).take(i as int).push(
                string_views(v@)[i as int],
            ));
        }
        i = i + 1;
    }
    proof {
        assert(string_views(v@).take(v@.len() as int) =~= string_views(v@));
    }
    out
}

/// Each character list as a string.
pub fn strings_of(v: &Vec<Vec<char>>) -> (out: Vec<String>)
    ensures
        string_views(out@) == views(v@),
        out@.len() == v@.len(),
{
    let mut out: Vec<String> = Vec::new();
    let mut i: usize = 0;
    while i < v.len()
        invariant
            i <= v@.len(),
            string_views(out@) == views(v@).take(i as int),
        decreases v@.len() - i,
    {
        let ghost before = string_views(out@);
        let t = string_of(v[i].as_slice());
        out.push(t);
        proof {
            assert(string_views(out@) =~= before.push(t@));
            assert(views(v@).take(i + 1) =~= views(v@).take(i as int).push(views(v@)[i as int]));
        }
        i = i + 1;
    }
    proof {
        assert(views(v@).take(v@.len() as int) =~= views(v@));
    }
    out
}

/// How `{:?}` renders a list of strings: each quoted and escaped, separated
/// by `, ` within brackets.
pub uninterp spec fn debug_strings(items: Seq<Seq<char>>) -> Seq<char>;

/// Renders a list of strings with `{:?}`, std's `Debug` for `Vec<String>`.
#[verifier::external_body]
pub fn debug_list(items: &Vec<String>) -> (s: String)
    ensures
        s@ == debug_strings(string_views(items@)),
{
    format!("{items:?}")
}

/// How `{:?}` renders one string: quoted, with `char::escape_debug` escapes.
pub uninterp spec fn debug_string(s: Seq<char>) -> Seq<char>;

/// Renders a string with `{:?}`, std's `Debug` for `str`.
#[verifier::external_body]
pub fn debug_str(s: &str) -> (r: String)
    ensures
        r@ == debug_string(s@),
{
    format!("{s:?}")
}

/// `i32` in decimal, with a leading `-` when negative.
pub open spec fn signed_decimal(n: int) -> Seq<char> {
    if n < 0 {
        "-"@ + decimal((-n) as nat)
    } else {
        decimal(n as nat)
    }
}

/// Appends the decimal rendering of a signed number.
pub fn push_signed(out: &mut String, n: i32)
    ensures
        final(out)@ == old(out)@ + signed_decimal(n as int),
{
    if n < 0 {
        out.append("-");
        let magnitude: u64 = if n == i32::MIN {
            2147483648u64
        } else {
            (-n) as u64
        };
        push_decimal(out, magnitude);
        proof {
            assert(old(out)@ + "-"@ + decimal(magnitude as nat) =~= old(out)@ + ("-"@ + decimal(
                (-n) as nat,
            )));
        }
    } else {
        push_decimal(out, n as u64);
    }
}

/// How `{:?}` renders an optional exit status.
pub open spec fn debug_status(s: Option<i32>) -> Seq<char> {
    match s {
        Some(n) => "Some("@ + signed_decimal(n as int) + ")"@,
        None => "None"@,
    }
}

/// Appends the `{:?}` rendering of an optional exit status.
pub fn push_status(out: &mut String, s: Option<i32>)
    ensures
        final(out)@ == old(out)@ + debug_status(s),
{
    match s {
        Some(n) => {
            out.append("Some(");
            push_signed(out, n);
            out.append(")");
            proof {
                assert(final(out)@ =~= old(out)@ + ("Some("@ + signed_decimal(n as int) + ")"@));
            }
        },
        None => {
            out.append("None");
        },
    }
}

} // verus!

verus! {

/// The text of the `Utf8Error` that `std::str::from_utf8` reports for an
/// invalid byte string.
pub uninterp spec fn utf8_error_text(bytes: Seq<u8>) -> Seq<char>;

/// `std::str::from_utf8`, keeping the error's `Display` text.
#[verifier::external_body]
pub fn utf8_text(bytes: &[u8]) -> (r: Result<String, String>)
    ensures
        r is Ok <==> vstd::utf8::valid_utf8(bytes@),
        r matches Ok(s) ==> s@ == vstd::utf8::decode_utf8(bytes@),
        r matches Err(e) ==> e@ == utf8_error_text(bytes@),
{
    match std::str::from_utf8(bytes) {
        Ok(s) => Ok(s.to_owned()),
        Err(e) => Err(e.to_string()),
    }
}

} // verus!

verus! {

/// The last index at or before `i` where `p` occurs.
pub open spec fn rfind_from(s: Seq<char>, p: Seq<char>, i: int) -> Option<int>
    decreases i + 1,
{
    if i < 0 {
        None
    } else if occurs_at(s, p, i) {
        Some(i)
    } else {
        rfind_from(s, p, i - 1)
    }
}

/// `str::rfind`: the last occurrence of `p` in `s`.
pub open spec fn rfind(s: Seq<char>, p: Seq<char>) -> Option<int> {
    rfind_from(s, p, s.len() - p.len())
}

/// The last occurrence of `p` in `s`.
pub fn rfind_in(s: &[char], p: &[char]) -> (r: Option<usize>)
    ensures
        match r {
            Some(i) => rfind(s@, p@) == Some(i as int) && occurs_at(s@, p@, i as int),
            None => rfind(s@, p@) is None,
        },
{
    if p.len() > s.len() {
        proof {
            assert(rfind_from(s@, p@, s@.len() - p@.len()) is None);
        }
        return None;
    }
    let mut i: usize = s.len() - p.len();
    loop
        invariant
            i <= s@.len() - p@.len(),
            p@.len() <= s@.len(),
            rfind(s@, p@) == rfind_from(s@, p@, i as int),
        decreases i,
    {
        if matches_at(s, p, i) {
            return Some(i);
        }
        if i == 0 {
            proof {
                assert(rfind_from(s@, p@, -1) is None);
            }
            return None;
        }
        i = i - 1;
    }
}

/// `[String]::join`.
pub fn join_strings(items: &Vec<String>, sep: &str) -> (out: String)
    ensures
        out@ == join(string_views(items@), sep@),
{
    let lists = char_lists(items);
    let sep_chars = chars_of(sep);
    let joined = join_of(&lists, sep_chars.as_slice());
    string_of(joined.as_slice())
}

/// How `{:?}` renders an ordered set of strings: each quoted and escaped,
/// separated by `, ` within braces.
pub open spec fn debug_set_text(items: Seq<Seq<char>>) -> Seq<char> {
    "{"@ + join(items.map_values(|x: Seq<char>| debug_string(x)), ", "@) + "}"@
}

/// Renders the strings of an ordered set as `{:?}` renders a `BTreeSet`.
pub fn debug_set(items: &Vec<String>) -> (s: String)
    ensures
        s@ == debug_set_text(string_views(items@)),
{
    let ghost ds = string_views(items@).map_values(|x: Seq<char>| debug_string(x));
    let mut body = String::new();
    let mut i: usize = 0;
    while i < items.len()
        invariant
            i <= items@.len(),
            ds == string_views(items@).map_values(|x: Seq<char>| debug_string(x)),
            body@ == join(ds.take(i as int), ", "@),
        decreases items@.len() - i,
    {
        let ghost before = body@;
        if i > 0 {
            body.append(", ");
        }
        let d = debug_str(items[i].as_str());
        body.append(d.as_str());
        proof {
            let t = ds.take(i + 1);
            assert(t.drop_last() =~= ds.take(i as int));
            assert(t.last() == d@);
            if i == 0 {
                assert(before =~= Seq::<char>::empty());
                assert(body@ =~= t[0]);
            }
        }
        i = i + 1;
    }
    proof {
        assert(ds.take(items@.len() as int) =~= ds);
    }
    let mut s = "{".to_owned();
    s.append(body.as_str());
    s.append("}");
    s
}

} // verus!
