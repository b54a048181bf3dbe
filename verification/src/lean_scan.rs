//! A lexical scan of Lean source that locates identifier tokens while
//! skipping line comments, nested block comments and string literals.
use vstd::prelude::*;
use vstd::string::*;

verus! {

pub open spec fn is_alpha(b: u8) -> bool {
    (0x41 <= b && b <= 0x5a) || (0x61 <= b && b <= 0x7a)
}

pub open spec fn is_digit(b: u8) -> bool {
    0x30 <= b && b <= 0x39
}

/// A byte that may start an identifier: an ASCII letter or `_`.
pub open spec fn ident_start(b: u8) -> bool {
    is_alpha(b) || b == 0x5f
}

/// A byte that may continue an identifier: an ASCII letter, digit or `_`.
pub open spec fn ident_continue(b: u8) -> bool {
    is_alpha(b) || is_digit(b) || b == 0x5f
}

/// Whether the two bytes `x y` occur at index `i`.
pub open spec fn pair_at(s: Seq<u8>, i: int, x: u8, y: u8) -> bool {
    0 <= i && i + 2 <= s.len() && s[i] == x && s[i + 1] == y
}

/// The end of a line comment: the next newline at or after `i`, or the end.
pub open spec fn line_end(s: Seq<u8>, i: int) -> int
    decreases s.len() - i,
{
    if i >= s.len() || s[i] == 0x0a {
        i
    } else {
        line_end(s, i + 1)
    }
}

/// The end of an identifier that continues at `i`.
pub open spec fn ident_end(s: Seq<u8>, i: int) -> int
    decreases s.len() - i,
{
    if i >= s.len() || !ident_continue(s[i]) {
        i
    } else {
        ident_end(s, i + 1)
    }
}

/// Where a string literal whose body starts at `i` ends, with the count of
/// newlines seen so far: a backslash skips the following byte, a quote closes
/// the literal, and an unclosed literal runs to the end.
pub open spec fn string_end(s: Seq<u8>, i: int, newlines: int) -> (int, int)
    decreases s.len() - i,
{
    if i >= s.len() {
        (i, newlines)
    } else if s[i] == 0x5c {
        if i + 2 <= s.len() {
            string_end(s, i + 2, newlines)
        } else {
            (s.len() as int, newlines)
        }
    } else if s[i] == 0x22 {
        (i + 1, newlines)
    } else if s[i] == 0x0a {
        string_end(s, i + 1, newlines + 1)
    } else {
        string_end(s, i + 1, newlines)
    }
}

/// The one-based lines of every occurrence of the identifier `w` in `s` from
/// index `i` on, outside comments and string literals; `newlines` counts the
/// line breaks before `i` and `depth` the open block comments.
pub open spec fn scan(s: Seq<u8>, w: Seq<u8>, i: int, newlines: int, depth: int) -> Seq<int>
    decreases s.len() - i,
{
    if i < 0 || i >= s.len() {
        Seq::empty()
    } else if s[i] == 0x0a {
        scan(s, w, i + 1, newlines + 1, depth)
    } else if depth > 0 {
        if pair_at(s, i, 0x2f, 0x2d) {
            scan(s, w, i + 2, newlines, depth + 1)
        } else if pair_at(s, i, 0x2d, 0x2f) {
            scan(s, w, i + 2, newlines, depth - 1)
        } else {
            scan(s, w, i + 1, newlines, depth)
        }
    } else if pair_at(s, i, 0x2d, 0x2d) {
        if line_end(s, i) <= i || line_end(s, i) > s.len() {
            Seq::empty()
        } else {
            scan(s, w, line_end(s, i), newlines, 0)
        }
    } else if pair_at(s, i, 0x2f, 0x2d) {
        scan(s, w, i + 2, newlines, 1)
    } else if s[i] == 0x22 {
        let (j, n) = string_end(s, i + 1, newlines);
        if j <= i || j > s.len() {
            Seq::empty()
        } else {
            scan(s, w, j, n, 0)
        }
    } else if ident_start(s[i]) {
        let j = ident_end(s, i);
        if j <= i || j > s.len() {
            Seq::empty()
        } else if s.subrange(i, j) == w {
            seq![newlines + 1] + scan(s, w, j, newlines, 0)
        } else {
            scan(s, w, j, newlines, 0)
        }
    } else {
        scan(s, w, i + 1, newlines, depth)
    }
}

/// The one-based line numbers of each identifier token equal to `w` in the
/// Lean source `s`.
pub open spec fn token_lines(s: Seq<u8>, w: Seq<u8>) -> Seq<int> {
    scan(s, w, 0, 0, 0)
}

proof fn lemma_line_end(s: Seq<u8>, i: int)
    requires
        0 <= i <= s.len(),
    ensures
        i <= line_end(s, i) <= s.len(),
        line_end(s, i) < s.len() ==> s[line_end(s, i)] == 0x0a,
        forall|k: int| i <= k < line_end(s, i) ==> s[k] != 0x0a,
    decreases s.len() - i,
{
    if i < s.len() && s[i] != 0x0a {
        lemma_line_end(s, i + 1);
    }
}

proof fn lemma_ident_end(s: Seq<u8>, i: int)
    requires
        0 <= i <= s.len(),
    ensures
        i <= ident_end(s, i) <= s.len(),
    decreases s.len() - i,
{
    if i < s.len() && ident_continue(s[i]) {
        lemma_ident_end(s, i + 1);
    }
}

proof fn lemma_string_end(s: Seq<u8>, i: int, n: int)
    requires
        0 <= i <= s.len(),
        0 <= n <= i,
    ensures
        i <= string_end(s, i, n).0 <= s.len(),
        n <= string_end(s, i, n).1 <= string_end(s, i, n).0,
    decreases s.len() - i,
{
    if i < s.len() {
        if s[i] == 0x5c {
            if i + 2 <= s.len() {
                lemma_string_end(s, i + 2, n);
            }
        } else if s[i] == 0x22 {
        } else if s[i] == 0x0a {
            lemma_string_end(s, i + 1, n + 1);
        } else {
            lemma_string_end(s, i + 1, n);
        }
    }
}

fn skip_line(s: &[u8], i: usize) -> (j: usize)
    requires
        i <= s@.len(),
    ensures
        j == line_end(s@, i as int),
    decreases s@.len() - i,
{
    if i >= s.len() || s[i] == 0x0a {
        i
    } else {
        skip_line(s, i + 1)
    }
}

fn skip_ident(s: &[u8], i: usize) -> (j: usize)
    requires
        i <= s@.len(),
    ensures
        j == ident_end(s@, i as int),
    decreases s@.len() - i,
{
    if i >= s.len() {
        return i;
    }
    let b = s[i];
    if !((0x41 <= b && b <= 0x5a) || (0x61 <= b && b <= 0x7a) || (0x30 <= b && b <= 0x39) || b
        == 0x5f) {
        i
    } else {
        skip_ident(s, i + 1)
    }
}

fn skip_string(s: &[u8], i: usize, newlines: usize) -> (r: (usize, usize))
    requires
        i <= s@.len(),
        newlines <= i,
    ensures
        r.0 as int == string_end(s@, i as int, newlines as int).0,
        r.1 as int == string_end(s@, i as int, newlines as int).1,
    decreases s@.len() - i,
{
    if i >= s.len() {
        (i, newlines)
    } else if s[i] == 0x5c {
        if s.len() - i >= 2 {
            skip_string(s, i + 2, newlines)
        } else {
            (s.len(), newlines)
        }
    } else if s[i] == 0x22 {
        (i + 1, newlines)
    } else if s[i] == 0x0a {
        skip_string(s, i + 1, newlines + 1)
    } else {
        skip_string(s, i + 1, newlines)
    }
}

/// Whether `s[from..to]` equals `w`.
fn bytes_equal_at(s: &[u8], from: usize, to: usize, w: &[u8]) -> (b: bool)
    requires
        from <= to <= s@.len(),
    ensures
        b == (s@.subrange(from as int, to as int) == w@),
{
    if to - from != w.len() {
        proof {
            assert(s@.subrange(from as int, to as int).len() != w@.len());
        }
        return false;
    }
    let mut k: usize = 0;
    while k < w.len()
        invariant
            from <= to <= s@.len(),
            to - from == w@.len(),
            k <= w@.len(),
            forall|j: int| 0 <= j < k ==> s@[from + j] == w@[j],
        decreases w@.len() - k,
    {
        if s[from + k] != w[k] {
            proof {
                assert(s@.subrange(from as int, to as int)[k as int] != w@[k as int]);
            }
            return false;
        }
        k = k + 1;
    }
    proof {
        assert(s@.subrange(from as int, to as int) =~= w@);
    }
    true
}

/// The one-based line of every identifier token equal to `wanted`, skipping
/// `--` line comments, nested `/- -/` block comments and string literals.
pub fn lean_token_locations(source: &str, wanted: &str) -> (lines: Vec<usize>)
    ensures
        lines@.len() == token_lines(source.spec_bytes(), wanted.spec_bytes()).len(),
        forall|k: int|
            0 <= k < lines@.len() ==> lines@[k] as int == token_lines(
                source.spec_bytes(),
                wanted.spec_bytes(),
            )[k],
{
    let s = source.as_bytes();
    let w = wanted.as_bytes();
    let ghost total = scan(s@, w@, 0, 0, 0);
    let ghost mut found: Seq<int> = Seq::empty();
    let mut out: Vec<usize> = Vec::new();
    let mut i: usize = 0;
    let mut newlines: usize = 0;
    let mut depth: usize = 0;
    while i < s.len()
        invariant
            s@ == source.spec_bytes(),
            w@ == wanted.spec_bytes(),
            total == scan(s@, w@, 0, 0, 0),
            i <= s@.len(),
            newlines <= i,
            depth <= i,
            total == found + scan(s@, w@, i as int, newlines as int, depth as int),
            out@.len() == found.len(),
            forall|k: int| 0 <= k < out@.len() ==> out@[k] as int == found[k],
        decreases s@.len() - i,
    {
        let b = s[i];
        if b == 0x0a {
            newlines = newlines + 1;
            i = i + 1;
        } else if depth > 0 {
            if s.len() - i >= 2 && b == 0x2f && s[i + 1] == 0x2d {
                depth = depth + 1;
                i = i + 2;
            } else if s.len() - i >= 2 && b == 0x2d && s[i + 1] == 0x2f {
                depth = depth - 1;
                i = i + 2;
            } else {
                i = i + 1;
            }
        } else if s.len() - i >= 2 && b == 0x2d && s[i + 1] == 0x2d {
            proof {
                lemma_line_end(s@, i + 1);
                assert(line_end(s@, i as int) == line_end(s@, i + 1));
            }
            i = skip_line(s, i);
        } else if s.len() - i >= 2 && b == 0x2f && s[i + 1] == 0x2d {
            depth = 1;
            i = i + 2;
        } else if b == 0x22 {
            proof {
                lemma_string_end(s@, i + 1, newlines as int);
            }
            let (j, n) = skip_string(s, i + 1, newlines);
            i = j;
            newlines = n;
        } else if (0x41 <= b && b <= 0x5a) || (0x61 <= b && b <= 0x7a) || b == 0x5f {
            proof {
                lemma_ident_end(s@, i + 1);
                assert(ident_end(s@, i as int) == ident_end(s@, i + 1));
            }
            let j = skip_ident(s, i);
            let ghost rest = scan(s@, w@, j as int, newlines as int, 0);
            if bytes_equal_at(s, i, j, w) {
                out.push(newlines + 1);
                proof {
                    assert(found + (seq![newlines + 1] + rest) =~= found.push(newlines + 1)
                        + rest);
                    found = found.push(newlines + 1);
                }
            }
            i = j;
        } else {
            i = i + 1;
        }
    }
    proof {
        assert(found + Seq::<int>::empty() =~= found);
    }
    out
}


/// The number of line breaks in `s` from index `i` on.
pub open spec fn newline_count(s: Seq<u8>, i: int) -> int
    decreases s.len() - i,
{
    if i < 0 || i >= s.len() {
        0
    } else if s[i] == 0x0a {
        1 + newline_count(s, i + 1)
    } else {
        newline_count(s, i + 1)
    }
}

proof fn lemma_newline_count_monotone(s: Seq<u8>, i: int, j: int)
    requires
        0 <= i <= j,
    ensures
        newline_count(s, j) <= newline_count(s, i),
        0 <= newline_count(s, j),
    decreases j - i,
{
    if i < j {
        lemma_newline_count_monotone(s, i + 1, j);
    } else {
        lemma_newline_count_nonneg(s, j);
    }
}

proof fn lemma_newline_count_nonneg(s: Seq<u8>, i: int)
    ensures
        0 <= newline_count(s, i),
    decreases s.len() - i,
{
    if 0 <= i < s.len() {
        lemma_newline_count_nonneg(s, i + 1);
    }
}

proof fn lemma_string_end_lines(s: Seq<u8>, i: int, n: int)
    requires
        0 <= i <= s.len(),
    ensures
        string_end(s, i, n).1 >= n,
        string_end(s, i, n).1 + newline_count(s, string_end(s, i, n).0) <= n + newline_count(s, i),
    decreases s.len() - i,
{
    if i < s.len() {
        if s[i] == 0x5c {
            if i + 2 <= s.len() {
                lemma_string_end_lines(s, i + 2, n);
                lemma_newline_count_monotone(s, i, i + 2);
            } else {
                lemma_newline_count_nonneg(s, i);
            }
        } else if s[i] == 0x22 {
            lemma_newline_count_monotone(s, i, i + 1);
        } else if s[i] == 0x0a {
            lemma_string_end_lines(s, i + 1, n + 1);
        } else {
            lemma_string_end_lines(s, i + 1, n);
        }
    }
}

/// Every line a scan from `i` reports lies between `newlines + 1` and the
/// last line of the source, and the lines come in nondecreasing order.
proof fn lemma_scan_lines(s: Seq<u8>, w: Seq<u8>, i: int, newlines: int, depth: int)
    requires
        0 <= i,
    ensures
        forall|k: int|
            0 <= k < scan(s, w, i, newlines, depth).len() ==> newlines + 1 <= #[trigger] scan(
                s,
                w,
                i,
                newlines,
                depth,
            )[k] <= newlines + 1 + newline_count(s, i),
        forall|a: int, b: int|
            0 <= a <= b < scan(s, w, i, newlines, depth).len() ==> #[trigger] scan(s, w, i, newlines, depth)[a]
                <= #[trigger] scan(s, w, i, newlines, depth)[b],
    decreases s.len() - i,
{
    let r = scan(s, w, i, newlines, depth);
    if i >= s.len() {
    } else if s[i] == 0x0a {
        assert(r == scan(s, w, i + 1, newlines + 1, depth));
        lemma_scan_lines(s, w, i + 1, newlines + 1, depth);
    } else if depth > 0 {
        if pair_at(s, i, 0x2f, 0x2d) {
            assert(r == scan(s, w, i + 2, newlines, depth + 1));
            lemma_scan_lines(s, w, i + 2, newlines, depth + 1);
            lemma_newline_count_monotone(s, i, i + 2);
        } else if pair_at(s, i, 0x2d, 0x2f) {
            assert(r == scan(s, w, i + 2, newlines, depth - 1));
            lemma_scan_lines(s, w, i + 2, newlines, depth - 1);
            lemma_newline_count_monotone(s, i, i + 2);
        } else {
            assert(r == scan(s, w, i + 1, newlines, depth));
            lemma_scan_lines(s, w, i + 1, newlines, depth);
            lemma_newline_count_monotone(s, i, i + 1);
        }
    } else if pair_at(s, i, 0x2d, 0x2d) {
        lemma_line_end(s, i);
        if !(line_end(s, i) <= i || line_end(s, i) > s.len()) {
            assert(r == scan(s, w, line_end(s, i), newlines, 0));
            lemma_scan_lines(s, w, line_end(s, i), newlines, 0);
            lemma_newline_count_monotone(s, i, line_end(s, i));
        }
    } else if pair_at(s, i, 0x2f, 0x2d) {
        assert(r == scan(s, w, i + 2, newlines, 1));
        lemma_scan_lines(s, w, i + 2, newlines, 1);
        lemma_newline_count_monotone(s, i, i + 2);
    } else if s[i] == 0x22 {
        let (j, n) = string_end(s, i + 1, newlines);
        lemma_string_end_lines(s, i + 1, newlines);
        lemma_newline_count_monotone(s, i, i + 1);
        if !(j <= i || j > s.len()) {
            assert(r == scan(s, w, j, n, 0));
            lemma_scan_lines(s, w, j, n, 0);
        }
    } else if ident_start(s[i]) {
        let j = ident_end(s, i);
        lemma_ident_end(s, i);
        if !(j <= i || j > s.len()) {
            lemma_scan_lines(s, w, j, newlines, 0);
            lemma_newline_count_monotone(s, i, j);
            if s.subrange(i, j) == w {
                let rest = scan(s, w, j, newlines, 0);
                assert(r == seq![newlines + 1] + rest);
                assert forall|a: int, b: int| 0 <= a <= b < r.len() implies #[trigger] r[a] <= #[trigger] r[b] by {
                    if a == 0 {
                        if b > 0 {
                            assert(r[b] == rest[b - 1]);
                        }
                    } else {
                        assert(r[a] == rest[a - 1] && r[b] == rest[b - 1]);
                    }
                }
                assert forall|k: int| 0 <= k < r.len() implies newlines + 1 <= #[trigger] r[k] <= newlines + 1
                    + newline_count(s, i) by {
                    if k > 0 {
                        assert(r[k] == rest[k - 1]);
                    }
                }
            } else {
                assert(r == scan(s, w, j, newlines, 0));
            }
        }
    } else {
        assert(r == scan(s, w, i + 1, newlines, depth));
        lemma_scan_lines(s, w, i + 1, newlines, depth);
        lemma_newline_count_monotone(s, i, i + 1);
    }
}

/// The lines `lean_token_locations` reports come in nondecreasing order,
/// and each is a line of the source: at least 1 and at most one more than
/// its number of line breaks.
pub proof fn lemma_token_lines_ascending(s: Seq<u8>, w: Seq<u8>)
    ensures
        forall|k: int|
            0 <= k < token_lines(s, w).len() ==> 1 <= #[trigger] token_lines(s, w)[k] <= 1 + newline_count(s, 0),
        forall|a: int, b: int|
            0 <= a <= b < token_lines(s, w).len() ==> #[trigger] token_lines(s, w)[a] <= #[trigger] token_lines(
                s,
                w,
            )[b],
{
    lemma_scan_lines(s, w, 0, 0, 0);
}

} // verus!
