//! Reading the summaries that libtest and pytest print, so that a run
//! counts only when exactly the one selected test passed (or, for a mutant
//! witness, failed).
use vstd::prelude::*;
use crate::text::{
    chars_of, lines, lines_of, matches_at, split, split_of, starts_with, trim, trim_end_len,
    trim_start_len, views, words, words_of,
};

verus! {

/// Every line, trimmed.
pub open spec fn trimmed_all(ls: Seq<Seq<char>>) -> Seq<Seq<char>>
    decreases ls.len(),
{
    if ls.len() == 0 {
        Seq::empty()
    } else {
        trimmed_all(ls.drop_last()).push(trim(ls.last()))
    }
}

/// The trimmed lines of both streams, standard output first.
pub open spec fn output_lines(stdout: Seq<char>, stderr: Seq<char>) -> Seq<Seq<char>> {
    trimmed_all(lines(stdout) + lines(stderr))
}

/// How many lines equal `target`.
pub open spec fn count_equal(ls: Seq<Seq<char>>, target: Seq<char>) -> nat
    decreases ls.len(),
{
    if ls.len() == 0 {
        0
    } else {
        count_equal(ls.drop_last(), target) + if ls.last() == target {
            1nat
        } else {
            0nat
        }
    }
}

/// What follows `prefix` on each line that starts with it.
pub open spec fn after_prefix(ls: Seq<Seq<char>>, prefix: Seq<char>) -> Seq<Seq<char>>
    decreases ls.len(),
{
    if ls.len() == 0 {
        Seq::empty()
    } else if starts_with(ls.last(), prefix) {
        after_prefix(ls.drop_last(), prefix).push(ls.last().skip(prefix.len() as int))
    } else {
        after_prefix(ls.drop_last(), prefix)
    }
}

/// A libtest summary after its status word: `;`-separated, trimmed counts
/// beginning with exactly `counts`.
pub open spec fn summary_counts_are(rest: Seq<char>, counts: Seq<Seq<char>>) -> bool {
    let fields = trimmed_all(split(rest, ";"@));
    fields.len() >= counts.len() && fields.take(counts.len() as int) == counts
}

/// The one summary line reads `status` followed by exactly `counts`.
pub open spec fn exact_summary(summaries: Seq<Seq<char>>, status: Seq<char>, counts: Seq<Seq<char>>) -> bool {
    &&& summaries.len() == 1
    &&& starts_with(summaries[0], status)
    &&& summary_counts_are(summaries[0].skip(status.len() as int), counts)
}

/// libtest reported exactly one test, named `name`, with `outcome`
/// (`ok` or `FAILED`), and a single summary `status` with `counts`.
pub open spec fn one_test_reported(
    ls: Seq<Seq<char>>,
    name: Seq<char>,
    outcome: Seq<char>,
    status: Seq<char>,
    counts: Seq<Seq<char>>,
) -> bool {
    &&& count_equal(ls, "running 1 test"@) == 1
    &&& count_equal(ls, "test "@ + name + " ... "@ + outcome) == 1
    &&& exact_summary(after_prefix(ls, "test result: "@), status, counts)
}

/// Trims each line.
pub fn trim_each(ls: &Vec<Vec<char>>) -> (out: Vec<Vec<char>>)
    ensures
        views(out@) == trimmed_all(views(ls@)),
{
    let mut out: Vec<Vec<char>> = Vec::new();
    let mut i: usize = 0;
    while i < ls.len()
        invariant
            i <= ls@.len(),
            views(out@) == trimmed_all(views(ls@).take(i as int)),
        decreases ls@.len() - i,
    {
        let line = ls[i].as_slice();
        let k = trim_start_len(line);
        let mut rest: Vec<char> = Vec::new();
        crate::text::extend_range(&mut rest, line, k, line.len());
        let n = trim_end_len(rest.as_slice());
        let mut t: Vec<char> = Vec::new();
        crate::text::extend_range(&mut t, rest.as_slice(), 0, n);
        let ghost before = views(out@);
        out.push(t);
        proof {
            assert(rest@ =~= line@.skip(k as int));
            assert(t@ =~= rest@.take(n as int));
            assert(t@ == trim(line@));
            let w = views(ls@).take(i + 1);
            assert(w.drop_last() =~= views(ls@).take(i as int));
            assert(w.last() == line@);
            assert(views(out@) =~= before.push(t@));
        }
        i = i + 1;
    }
    proof {
        assert(views(ls@).take(ls@.len() as int) =~= views(ls@));
    }
    out
}

/// The trimmed lines of both streams.
pub fn output_lines_of(stdout: &str, stderr: &str) -> (out: Vec<Vec<char>>)
    ensures
        views(out@) == output_lines(stdout@, stderr@),
{
    let o = chars_of(stdout);
    let e = chars_of(stderr);
    let mut all = lines_of(o.as_slice());
    let more = lines_of(e.as_slice());
    let ghost first = views(all@);
    let mut i: usize = 0;
    while i < more.len()
        invariant
            i <= more@.len(),
            views(all@) == first + views(more@).take(i as int),
        decreases more@.len() - i,
    {
        let mut copy: Vec<char> = Vec::new();
        crate::text::extend_chars(&mut copy, more[i].as_slice());
        let ghost before = views(all@);
        all.push(copy);
        proof {
            assert(views(all@) =~= before.push(more@[i as int]@));
            assert(first + views(more@).take(i + 1) =~= first + views(more@).take(i as int)
                + seq![views(more@)[i as int]]);
        }
        i = i + 1;
    }
    proof {
        assert(views(more@).take(more@.len() as int) =~= views(more@));
    }
    trim_each(&all)
}

fn equal_chars(a: &[char], b: &[char]) -> (r: bool)
    ensures
        r == (a@ == b@),
{
    if a.len() != b.len() {
        return false;
    }
    let m = matches_at(a, b, 0);
    proof {
        assert(a@.subrange(0, b@.len() as int) =~= a@);
    }
    m
}

/// How many lines equal `target`.
pub fn count_lines_equal(ls: &Vec<Vec<char>>, target: &[char]) -> (n: usize)
    ensures
        n == count_equal(views(ls@), target@),
{
    let mut n: usize = 0;
    let mut i: usize = 0;
    while i < ls.len()
        invariant
            i <= ls@.len(),
            n == count_equal(views(ls@).take(i as int), target@),
            n <= i,
        decreases ls@.len() - i,
    {
        proof {
            let w = views(ls@).take(i + 1);
            assert(w.drop_last() =~= views(ls@).take(i as int));
            assert(w.last() == ls@[i as int]@);
        }
        if equal_chars(ls[i].as_slice(), target) {
            n = n + 1;
        }
        i = i + 1;
    }
    proof {
        assert(views(ls@).take(ls@.len() as int) =~= views(ls@));
    }
    n
}

/// What follows `prefix` on each line that starts with it.
pub fn lines_after_prefix(ls: &Vec<Vec<char>>, prefix: &[char]) -> (out: Vec<Vec<char>>)
    ensures
        views(out@) == after_prefix(views(ls@), prefix@),
{
    let mut out: Vec<Vec<char>> = Vec::new();
    let mut i: usize = 0;
    while i < ls.len()
        invariant
            i <= ls@.len(),
            views(out@) == after_prefix(views(ls@).take(i as int), prefix@),
        decreases ls@.len() - i,
    {
        let line = ls[i].as_slice();
        proof {
            let w = views(ls@).take(i + 1);
            assert(w.drop_last() =~= views(ls@).take(i as int));
            assert(w.last() == line@);
        }
        if matches_at(line, prefix, 0) {
            let mut rest: Vec<char> = Vec::new();
            crate::text::extend_range(&mut rest, line, prefix.len(), line.len());
            let ghost before = views(out@);
            out.push(rest);
            proof {
                assert(rest@ =~= line@.skip(prefix@.len() as int));
                assert(views(out@) =~= before.push(rest@));
            }
        }
        i = i + 1;
    }
    proof {
        assert(views(ls@).take(ls@.len() as int) =~= views(ls@));
    }
    out
}

/// Whether the single summary reads `status` then exactly `counts`.
#[verifier::loop_isolation(false)]
pub fn summary_is(summaries: &Vec<Vec<char>>, status: &str, counts: &Vec<Vec<char>>) -> (b: bool)
    ensures
        b == exact_summary(views(summaries@), status@, views(counts@)),
{
    if summaries.len() != 1 {
        return false;
    }
    let s = summaries[0].as_slice();
    proof {
        assert(views(summaries@)[0] == s@);
    }
    let st = chars_of(status);
    if !matches_at(s, st.as_slice(), 0) {
        return false;
    }
    let mut rest: Vec<char> = Vec::new();
    crate::text::extend_range(&mut rest, s, st.len(), s.len());
    let semi = chars_of(";");
    proof {
        reveal_strlit(";");
        assert(rest@ =~= s@.skip(st@.len() as int));
    }
    let parts = split_of(rest.as_slice(), semi.as_slice());
    let fields = trim_each(&parts);
    if fields.len() < counts.len() {
        return false;
    }
    let mut k: usize = 0;
    while k < counts.len()
        invariant
            counts@.len() <= fields@.len(),
            k <= counts@.len(),
            forall|j: int| 0 <= j < k ==> #[trigger] views(fields@)[j] == views(counts@)[j],
        decreases counts@.len() - k,
    {
        proof {
            assert(views(fields@)[k as int] == fields@[k as int]@);
            assert(views(counts@)[k as int] == counts@[k as int]@);
        }
        if !equal_chars(fields[k].as_slice(), counts[k].as_slice()) {
            proof {
                assert(views(fields@).take(counts@.len() as int)[k as int] != views(counts@)[k as int]);
            }
            return false;
        }
        k = k + 1;
    }
    proof {
        assert(views(fields@).take(counts@.len() as int) =~= views(counts@));
    }
    true
}

/// Whether libtest reported exactly one test `name` with `outcome` and a
/// single summary of `status` and `counts`.
pub fn one_test_reported_in(
    ls: &Vec<Vec<char>>,
    name: &str,
    outcome: &str,
    status: &str,
    counts: &Vec<Vec<char>>,
) -> (b: bool)
    ensures
        b == one_test_reported(views(ls@), name@, outcome@, status@, views(counts@)),
{
    let running = chars_of("running 1 test");
    let mut expected = "test ".to_owned();
    expected.append(name);
    expected.append(" ... ");
    expected.append(outcome);
    let expected_chars = chars_of(expected.as_str());
    let prefix = chars_of("test result: ");
    let summaries = lines_after_prefix(ls, prefix.as_slice());
    count_lines_equal(ls, running.as_slice()) == 1 && count_lines_equal(
        ls,
        expected_chars.as_slice(),
    ) == 1 && summary_is(&summaries, status, counts)
}

/// The four leading counts of a libtest summary.
pub fn counts_of(passed: &str, failed: &str) -> (out: Vec<Vec<char>>)
    ensures
        views(out@) == seq![passed@, failed@, "0 ignored"@, "0 measured"@],
{
    let mut out: Vec<Vec<char>> = Vec::new();
    out.push(chars_of(passed));
    out.push(chars_of(failed));
    out.push(chars_of("0 ignored"));
    out.push(chars_of("0 measured"));
    proof {
        assert(views(out@) =~= seq![passed@, failed@, "0 ignored"@, "0 measured"@]);
    }
    out
}

/// A pytest summary line: its first word is a count of digits and its
/// second word is `passed`.
pub open spec fn is_passed_summary(line: Seq<char>) -> bool {
    let w = words(line);
    w.len() >= 2 && crate::names::all_in(w[0], crate::names::CharClass::Digit) && w[1] == "passed"@
}

/// The pytest summary lines among `ls`.
pub open spec fn passed_summaries(ls: Seq<Seq<char>>) -> Seq<Seq<char>>
    decreases ls.len(),
{
    if ls.len() == 0 {
        Seq::empty()
    } else if is_passed_summary(ls.last()) {
        passed_summaries(ls.drop_last()).push(ls.last())
    } else {
        passed_summaries(ls.drop_last())
    }
}

/// Exactly one summary, reporting exactly one passed test and no failure
/// or error.
pub open spec fn one_python_pass(summaries: Seq<Seq<char>>) -> bool {
    &&& summaries.len() == 1
    &&& starts_with(summaries[0], "1 passed"@)
    &&& (summaries[0].len() > 8 ==> (summaries[0][8] == ' ' || summaries[0][8] == ','))
    &&& !crate::text::contains(summaries[0], " failed"@)
    &&& !crate::text::contains(summaries[0], " error"@)
}

fn passed_summary(line: &[char]) -> (b: bool)
    ensures
        b == is_passed_summary(line@),
{
    let w = words_of(line);
    if w.len() < 2 {
        return false;
    }
    proof {
        assert(views(w@)[0] == w@[0]@);
        assert(views(w@)[1] == w@[1]@);
        assert(w@[0]@.skip(0) =~= w@[0]@);
    }
    let passed = chars_of("passed");
    crate::names::all_chars_in(w[0].as_slice(), 0, crate::names::CharClass::Digit) && equal_chars(
        w[1].as_slice(),
        passed.as_slice(),
    )
}

/// The pytest summary lines.
pub fn passed_summaries_of(ls: &Vec<Vec<char>>) -> (out: Vec<Vec<char>>)
    ensures
        views(out@) == passed_summaries(views(ls@)),
{
    let mut out: Vec<Vec<char>> = Vec::new();
    let mut i: usize = 0;
    while i < ls.len()
        invariant
            i <= ls@.len(),
            views(out@) == passed_summaries(views(ls@).take(i as int)),
        decreases ls@.len() - i,
    {
        let line = ls[i].as_slice();
        proof {
            let w = views(ls@).take(i + 1);
            assert(w.drop_last() =~= views(ls@).take(i as int));
            assert(w.last() == line@);
        }
        if passed_summary(line) {
            let mut copy: Vec<char> = Vec::new();
            crate::text::extend_chars(&mut copy, line);
            let ghost before = views(out@);
            out.push(copy);
            proof {
                assert(views(out@) =~= before.push(line@));
            }
        }
        i = i + 1;
    }
    proof {
        assert(views(ls@).take(ls@.len() as int) =~= views(ls@));
    }
    out
}

/// Whether the pytest summaries report exactly one passing test.
pub fn one_python_pass_in(summaries: &Vec<Vec<char>>) -> (b: bool)
    ensures
        b == one_python_pass(views(summaries@)),
{
    if summaries.len() != 1 {
        return false;
    }
    let s = summaries[0].as_slice();
    proof {
        assert(views(summaries@)[0] == s@);
        reveal_strlit("1 passed");
    }
    let head = chars_of("1 passed");
    let failed = chars_of(" failed");
    let error = chars_of(" error");
    if !matches_at(s, head.as_slice(), 0) {
        return false;
    }
    if s.len() > 8 && s[8] != ' ' && s[8] != ',' {
        return false;
    }
    crate::text::find_in(s, failed.as_slice(), 0).is_none() && crate::text::find_in(
        s,
        error.as_slice(),
        0,
    ).is_none()
}

} // verus!
