//! A Python generator run: how it is planned, what it may change in its
//! workspace (every seed and sealed file it found stays as it was, and what
//! it adds is exactly its declared outputs under its candidate root, with
//! the directories that lead to them), and what its outputs decide.
use vstd::prelude::*;
use crate::inventory::lists_equal;
use crate::paths::{components, components_of, parts_prefix};
use crate::testing::AdapterError;
use crate::text::{chars_of, string_views, views};
use crate::inventory::{has_duplicates, sorted_set, MAX_INVENTORY};
use crate::process::{ProcessOutput, ProcessSpec};
use crate::rust_session::{failed, run_failure};
use crate::test_unit::is_py_file;
use crate::transcription_session::{bytes_equal, listing_view, ListingEntry};

verus! {

/// A listing as plain values: each path with its bytes, or nothing for a
/// directory.
pub type Listing = Seq<(Seq<char>, Option<Seq<u8>>)>;

/// `p` is the candidate root joined with one of the outputs, or a
/// directory on the way there below the candidate root.
pub open spec fn leads_to_output(p: Seq<Seq<char>>, candidate: Seq<Seq<char>>, output: Seq<char>) -> bool {
    let joined = candidate + components(output);
    &&& p.len() <= joined.len()
    &&& joined.take(p.len() as int) == p
    &&& (p.len() > candidate.len() || p.len() == joined.len())
}

/// A new path the generator may create.
pub open spec fn allowed_new(p: Seq<Seq<char>>, candidate: Seq<Seq<char>>, outputs: Seq<Seq<char>>) -> bool {
    exists|i: int| 0 <= i < outputs.len() && leads_to_output(p, candidate, #[trigger] outputs[i])
}

/// A declared output path.
pub open spec fn is_output(p: Seq<Seq<char>>, candidate: Seq<Seq<char>>, outputs: Seq<Seq<char>>) -> bool {
    exists|i: int| 0 <= i < outputs.len() && p == candidate + components(#[trigger] outputs[i])
}

/// A listing holds a path with these components.
pub open spec fn listed(l: Listing, p: Seq<Seq<char>>) -> bool {
    exists|j: int| 0 <= j < l.len() && components(#[trigger] l[j].0) == p
}

/// A listing holds this entry, its path taken by components.
pub open spec fn holds_entry(l: Listing, p: Seq<Seq<char>>, e: Option<Seq<u8>>) -> bool {
    exists|j: int| 0 <= j < l.len() && components(#[trigger] l[j].0) == p && l[j].1 == e
}

/// Some entry of `before` is missing from `after` or differs there.
pub open spec fn seed_changed(before: Listing, after: Listing) -> bool {
    exists|i: int| 0 <= i < before.len() && !holds_entry(after, components(#[trigger] before[i].0), before[i].1)
}

/// A new entry the generator was not allowed: not on the way to an
/// output, an output that is no file, or a directory that is no output's.
pub open spec fn undeclared(
    p: Seq<Seq<char>>,
    e: Option<Seq<u8>>,
    candidate: Seq<Seq<char>>,
    outputs: Seq<Seq<char>>,
) -> bool {
    ||| !allowed_new(p, candidate, outputs)
    ||| (is_output(p, candidate, outputs) && e is None)
    ||| (!is_output(p, candidate, outputs) && e is Some)
}

/// The first of `after[..n]` that is new and undeclared.
pub open spec fn first_undeclared(
    after: Listing,
    before: Listing,
    candidate: Seq<Seq<char>>,
    outputs: Seq<Seq<char>>,
    n: nat,
) -> Option<Seq<char>>
    decreases n,
{
    if n == 0 {
        None
    } else {
        match first_undeclared(after, before, candidate, outputs, (n - 1) as nat) {
            Some(x) => Some(x),
            None => {
                let p = components(after[n - 1].0);
                if !listed(before, p) && undeclared(p, after[n - 1].1, candidate, outputs) {
                    Some(after[n - 1].0)
                } else {
                    None
                }
            },
        }
    }
}

proof fn lemma_first_undeclared_stays(
    after: Listing,
    before: Listing,
    candidate: Seq<Seq<char>>,
    outputs: Seq<Seq<char>>,
    m: nat,
    n: nat,
)
    requires
        m <= n <= after.len(),
        first_undeclared(after, before, candidate, outputs, m) is Some,
    ensures
        first_undeclared(after, before, candidate, outputs, n) == first_undeclared(after, before, candidate, outputs, m),
    decreases n - m,
{
    if m < n {
        lemma_first_undeclared_stays(after, before, candidate, outputs, m, (n - 1) as nat);
    }
}

fn listing_parts(l: &Vec<ListingEntry>) -> (out: Vec<Vec<Vec<char>>>)
    ensures
        out@.len() == l@.len(),
        forall|i: int| 0 <= i < l@.len() ==> views(#[trigger] out@[i]@) == components(listing_view(l@)[i].0),
{
    let mut out: Vec<Vec<Vec<char>>> = Vec::new();
    let mut i: usize = 0;
    while i < l.len()
        invariant
            i <= l@.len(),
            out@.len() == i,
            forall|k: int| 0 <= k < i ==> views(#[trigger] out@[k]@) == components(listing_view(l@)[k].0),
        decreases l@.len() - i,
    {
        let c = chars_of(l[i].0.as_str());
        let parts = components_of(c.as_slice());
        out.push(parts);
        i = i + 1;
    }
    out
}

fn same_content(a: &Option<Vec<u8>>, b: &Option<Vec<u8>>) -> (r: bool)
    ensures
        r == ((match a {
            Some(x) => Some(x@),
            None => None,
        }) == (match b {
            Some(x) => Some(x@),
            None => None,
        })),
{
    match (a, b) {
        (Some(x), Some(y)) => bytes_equal(x.as_slice(), y.as_slice()),
        (None, None) => true,
        _ => false,
    }
}

fn joined_parts(candidate: &Vec<Vec<char>>, output: &str) -> (out: Vec<Vec<char>>)
    ensures
        views(out@) == views(candidate@) + components(output@),
{
    let mut out: Vec<Vec<char>> = Vec::new();
    let mut i: usize = 0;
    while i < candidate.len()
        invariant
            i <= candidate@.len(),
            views(out@) == views(candidate@).take(i as int),
        decreases candidate@.len() - i,
    {
        let ghost before = views(out@);
        out.push(candidate[i].clone());
        proof {
            assert(views(out@) =~= before.push(candidate@[i as int]@));
            assert(views(candidate@).take(i + 1) =~= views(candidate@).take(i as int).push(candidate@[i as int]@));
        }
        i = i + 1;
    }
    proof {
        assert(views(candidate@).take(candidate@.len() as int) =~= views(candidate@));
    }
    let c = chars_of(output);
    let rest = components_of(c.as_slice());
    let ghost head = views(out@);
    let mut k: usize = 0;
    while k < rest.len()
        invariant
            k <= rest@.len(),
            views(out@) == head + views(rest@).take(k as int),
        decreases rest@.len() - k,
    {
        let ghost before = views(out@);
        out.push(rest[k].clone());
        proof {
            assert(views(out@) =~= before.push(rest@[k as int]@));
            assert(views(rest@).take(k + 1) =~= views(rest@).take(k as int).push(rest@[k as int]@));
            assert(head + views(rest@).take(k + 1) =~= (head + views(rest@).take(k as int)).push(rest@[k as int]@));
        }
        k = k + 1;
    }
    proof {
        assert(views(rest@).take(rest@.len() as int) =~= views(rest@));
    }
    out
}

/// Whether `p` is allowed new, and whether it is an output.
fn classify(p: &Vec<Vec<char>>, candidate: &Vec<Vec<char>>, outputs: &Vec<String>) -> (r: (bool, bool))
    ensures
        r.0 == allowed_new(views(p@), views(candidate@), crate::text::string_views(outputs@)),
        r.1 == is_output(views(p@), views(candidate@), crate::text::string_views(outputs@)),
{
    let ghost outs = crate::text::string_views(outputs@);
    let ghost pv = views(p@);
    let ghost cv = views(candidate@);
    let mut allowed = false;
    let mut output = false;
    let mut i: usize = 0;
    while i < outputs.len()
        invariant
            i <= outs.len(),
            outs == crate::text::string_views(outputs@),
            pv == views(p@),
            cv == views(candidate@),
            allowed == exists|k: int| 0 <= k < i && leads_to_output(pv, cv, #[trigger] outs[k]),
            output == exists|k: int| 0 <= k < i && pv == cv + components(#[trigger] outs[k]),
        decreases outs.len() - i,
    {
        let joined = joined_parts(candidate, outputs[i].as_str());
        proof {
            assert(outs[i as int] == outputs@[i as int]@);
            assert(views(joined@).len() == joined@.len());
            assert(pv.len() == p@.len());
            assert(cv.len() == candidate@.len());
        }
        let here = parts_prefix(p, &joined) && (p.len() > candidate.len() || p.len() == joined.len());
        let exact = lists_equal(p, &joined);
        proof {
            assert(here == leads_to_output(pv, cv, outs[i as int]));
            if here {
                assert(leads_to_output(pv, cv, outs[i as int]));
            }
            if exact {
                assert(pv == cv + components(outs[i as int]));
            }
        }
        allowed = allowed || here;
        output = output || exact;
        i = i + 1;
    }
    (allowed, output)
}

/// Holds a generator's workspace, listed before and after it ran, to what
/// it may change: `before`'s entries all stay, and each new entry of
/// `after` leads to or is one of `outputs` under `candidate`, the outputs
/// as files and the rest as directories.
pub fn check_generator_changes(
    candidate: &str,
    outputs: &Vec<String>,
    before: &Vec<ListingEntry>,
    after: &Vec<ListingEntry>,
) -> (r: Result<(), AdapterError>)
    ensures
        ({
            let b = listing_view(before@);
            let a = listing_view(after@);
            let cand = components(candidate@);
            let outs = crate::text::string_views(outputs@);
            if seed_changed(b, a) {
                r matches Err(AdapterError::ToolFailed(m))
                    && m@ == "generator changed or removed a registered seed or sealed project file"@
            } else {
                match first_undeclared(a, b, cand, outs, a.len()) {
                    Some(p) => r matches Err(AdapterError::Inventory(m)) && m@ == "generator emitted undeclared path `"@
                        + p + "`"@,
                    None => r is Ok,
                }
            }
        }),
{
    let ghost b = listing_view(before@);
    let ghost a = listing_view(after@);
    let bp = listing_parts(before);
    let ap = listing_parts(after);
    let mut i: usize = 0;
    while i < before.len()
        invariant
            i <= b.len(),
            b == listing_view(before@),
            a == listing_view(after@),
            bp@.len() == b.len(),
            ap@.len() == a.len(),
            forall|k: int| 0 <= k < b.len() ==> views(#[trigger] bp@[k]@) == components(b[k].0),
            forall|k: int| 0 <= k < a.len() ==> views(#[trigger] ap@[k]@) == components(a[k].0),
            forall|k: int| 0 <= k < i ==> holds_entry(a, components(#[trigger] b[k].0), b[k].1),
        decreases b.len() - i,
    {
        let mut j: usize = 0;
        let mut found = false;
        while j < after.len() && !found
            invariant
                j <= a.len(),
                i < b.len(),
                a == listing_view(after@),
                b == listing_view(before@),
                ap@.len() == a.len(),
                forall|k: int| 0 <= k < b.len() ==> views(#[trigger] bp@[k]@) == components(b[k].0),
                forall|k: int| 0 <= k < a.len() ==> views(#[trigger] ap@[k]@) == components(a[k].0),
                bp@.len() == b.len(),
                found ==> holds_entry(a, components(b[i as int].0), b[i as int].1),
                !found ==> forall|k: int| 0 <= k < j ==> !(components(#[trigger] a[k].0) == components(b[i as int].0)
                    && a[k].1 == b[i as int].1),
            decreases (a.len() - j) * 2 + if found { 0int } else { 1int },
        {
            let same_path = lists_equal(&ap[j], &bp[i]);
            let same = same_path && same_content(&after[j].1, &before[i].1);
            proof {
                assert(views(ap@[j as int]@) == components(a[j as int].0));
                assert(views(bp@[i as int]@) == components(b[i as int].0));
                assert(a[j as int].1 == match after@[j as int].1 {
                    Some(x) => Some(x@),
                    None => None,
                });
                assert(b[i as int].1 == match before@[i as int].1 {
                    Some(x) => Some(x@),
                    None => None,
                });
            }
            if same {
                found = true;
            } else {
                j = j + 1;
            }
        }
        if !found {
            proof {
                assert(!holds_entry(a, components(b[i as int].0), b[i as int].1));
                assert(seed_changed(b, a));
            }
            return Err(
                AdapterError::ToolFailed("generator changed or removed a registered seed or sealed project file".to_owned()),
            );
        }
        i = i + 1;
    }
    proof {
        assert(!seed_changed(b, a));
    }
    let c = chars_of(candidate);
    let cand = components_of(c.as_slice());
    let ghost outs = crate::text::string_views(outputs@);
    let mut k: usize = 0;
    while k < after.len()
        invariant
            k <= a.len(),
            a == listing_view(after@),
            b == listing_view(before@),
            !seed_changed(b, a),
            ap@.len() == a.len(),
            bp@.len() == b.len(),
            views(cand@) == components(candidate@),
            outs == crate::text::string_views(outputs@),
            forall|x: int| 0 <= x < b.len() ==> views(#[trigger] bp@[x]@) == components(b[x].0),
            forall|x: int| 0 <= x < a.len() ==> views(#[trigger] ap@[x]@) == components(a[x].0),
            first_undeclared(a, b, components(candidate@), outs, k as nat) is None,
        decreases a.len() - k,
    {
        let mut j: usize = 0;
        let mut old_path = false;
        while j < before.len() && !old_path
            invariant
                j <= b.len(),
                k < a.len(),
                b == listing_view(before@),
                a == listing_view(after@),
                bp@.len() == b.len(),
                ap@.len() == a.len(),
                forall|x: int| 0 <= x < b.len() ==> views(#[trigger] bp@[x]@) == components(b[x].0),
                forall|x: int| 0 <= x < a.len() ==> views(#[trigger] ap@[x]@) == components(a[x].0),
                old_path ==> listed(b, components(a[k as int].0)),
                !old_path ==> forall|x: int| 0 <= x < j ==> components(#[trigger] b[x].0) != components(a[k as int].0),
            decreases (b.len() - j) * 2 + if old_path { 0int } else { 1int },
        {
            proof {
                assert(views(bp@[j as int]@) == components(b[j as int].0));
                assert(views(ap@[k as int]@) == components(a[k as int].0));
            }
            if lists_equal(&bp[j], &ap[k]) {
                old_path = true;
            } else {
                j = j + 1;
            }
        }
        if !old_path {
            let (allowed, output) = classify(&ap[k], &cand, outputs);
            let is_file = after[k].1.is_some();
            proof {
                assert(views(ap@[k as int]@) == components(a[k as int].0));
                assert(a[k as int].1 is Some == after@[k as int].1 is Some);
                assert(!listed(b, components(a[k as int].0)));
            }
            if !allowed || (output && !is_file) || (!output && is_file) {
                proof {
                    assert(first_undeclared(a, b, components(candidate@), outs, (k + 1) as nat) == Some(a[k as int].0));
                    lemma_first_undeclared_stays(a, b, components(candidate@), outs, (k + 1) as nat, a.len());
                }
                let m = crate::aeneas::framed("generator emitted undeclared path `", after[k].0.as_str(), "`");
                return Err(AdapterError::Inventory(m));
            }
        }
        k = k + 1;
    }
    Ok(())
}


/// What planning a generator run decides: `python3` with the checker's
/// path in the run root and `--update`, or why it cannot run.
pub open spec fn generator_plan(
    operation: Seq<char>,
    checker: Option<String>,
    run_checker: Result<(String, bool), AdapterError>,
    r: Result<ProcessSpec, AdapterError>,
) -> bool {
    if checker is None {
        r matches Err(AdapterError::Unit(m)) && m@ == "generator operation requires a checker"@
    } else if !(operation == "update"@ || operation == "inventory"@ || operation == "check"@ || operation
        == "reproduce"@) {
        r matches Err(AdapterError::Request(m)) && m@
            == "generator executes only for inventory, check, reproduce, or update"@
    } else if run_checker is Err {
        r == Err::<ProcessSpec, AdapterError>(run_checker->Err_0)
    } else if !run_checker->Ok_0.1 || !is_py_file(run_checker->Ok_0.0@) {
        r matches Err(AdapterError::UnsafePath(p)) && p@ == checker->0@
    } else {
        r matches Ok(spec) && spec.program@ == "python3"@ && string_views(spec.args@) == seq![
            run_checker->Ok_0.0@,
            "--update"@,
        ]
    }
}

/// Plans a generator run: the unit must name its checker, the operation
/// must be one that generates, and the checker must be a `.py` regular
/// file in the root it runs in (as `run_checker` resolved it there).
pub fn plan_generator_run(
    operation: &str,
    checker: &Option<String>,
    run_checker: Result<(String, bool), AdapterError>,
) -> (r: Result<ProcessSpec, AdapterError>)
    ensures
        generator_plan(operation@, *checker, run_checker, r),
{
    let name = match checker {
        None => {
            return Err(AdapterError::Unit("generator operation requires a checker".to_owned()));
        },
        Some(c) => c,
    };
    if !(crate::text::str_equal(operation, "update") || crate::text::str_equal(operation, "inventory")
        || crate::text::str_equal(operation, "check") || crate::text::str_equal(operation, "reproduce")) {
        return Err(
            AdapterError::Request("generator executes only for inventory, check, reproduce, or update".to_owned()),
        );
    }
    let (path, is_file) = run_checker?;
    if !is_file || !crate::test_unit::py_file(path.as_str()) {
        return Err(AdapterError::UnsafePath(name.clone()));
    }
    let args = vec![path, "--update".to_owned()];
    proof {
        assert(string_views(args@) =~= seq![args@[0]@, "--update"@]);
    }
    Ok(ProcessSpec { program: "python3".to_owned(), args })
}

/// Generated or committed outputs as plain values: logical name and bytes.
pub open spec fn output_views(o: Seq<(String, Vec<u8>)>) -> Seq<(Seq<char>, Seq<u8>)> {
    o.map_values(|e: (String, Vec<u8>)| (e.0@, e.1@))
}

/// The logical names of outputs.
pub open spec fn output_names(o: Seq<(Seq<char>, Seq<u8>)>) -> Seq<Seq<char>> {
    o.map_values(|e: (Seq<char>, Seq<u8>)| e.0)
}

/// Two output collections hold the same outputs: each of `a` is in `b`,
/// and they are as many.
pub open spec fn same_outputs(a: Seq<(Seq<char>, Seq<u8>)>, b: Seq<(Seq<char>, Seq<u8>)>) -> bool {
    a.len() == b.len() && forall|i: int| 0 <= i < a.len() ==> b.contains(#[trigger] a[i])
}

/// What a generator run's outcome decides: the run must succeed, its
/// workspace changes be allowed, its outputs carry no name twice and match
/// the committed ones where there are any; it answers with their sorted
/// names.
pub open spec fn generator_outcome(
    spec: ProcessSpec,
    output: ProcessOutput,
    changes: Result<(), AdapterError>,
    generated: Seq<(Seq<char>, Seq<u8>)>,
    committed: Option<Seq<(Seq<char>, Seq<u8>)>>,
    r: Result<Vec<String>, AdapterError>,
) -> bool {
    if failed(output) {
        r matches Err(e) && run_failure(spec.program@, string_views(spec.args@), output, e)
    } else if changes is Err {
        r == Err::<Vec<String>, AdapterError>(changes->Err_0)
    } else if has_duplicates(output_names(generated)) {
        r matches Err(AdapterError::Unit(m)) && m@ == "generator output allowlist contains duplicates"@
    } else if committed matches Some(c) && !same_outputs(generated, c) {
        r matches Err(AdapterError::ToolFailed(m)) && m@
            == "freshly generated output bytes differ from the committed exact output inventory"@
    } else if generated.len() > MAX_INVENTORY {
        r matches Err(AdapterError::Inventory(m)) && m@ == "generator observed output inventory"@
            + " exceeds 100000 items"@
    } else {
        r matches Ok(names) && string_views(names@) == sorted_set(output_names(generated))
    }
}

fn output_name_lists(o: &Vec<(String, Vec<u8>)>) -> (out: Vec<String>)
    ensures
        string_views(out@) == output_names(output_views(o@)),
{
    let mut out: Vec<String> = Vec::new();
    let mut i: usize = 0;
    while i < o.len()
        invariant
            i <= o@.len(),
            string_views(out@) == output_names(output_views(o@)).take(i as int),
        decreases o@.len() - i,
    {
        let ghost before = string_views(out@);
        let n = o[i].0.clone();
        out.push(n);
        proof {
            assert(string_views(out@) =~= before.push(n@));
            assert(output_names(output_views(o@)).take(i + 1) =~= output_names(output_views(o@)).take(i as int).push(
                n@,
            ));
        }
        i = i + 1;
    }
    proof {
        assert(output_names(output_views(o@)).take(o@.len() as int) =~= output_names(output_views(o@)));
    }
    out
}

fn holds_output(c: &Vec<(String, Vec<u8>)>, name: &str, bytes: &[u8]) -> (b: bool)
    ensures
        b == output_views(c@).contains((name@, bytes@)),
{
    let ghost cv = output_views(c@);
    let mut j: usize = 0;
    while j < c.len()
        invariant
            j <= cv.len(),
            cv == output_views(c@),
            forall|k: int| 0 <= k < j ==> cv[k] != (name@, bytes@),
        decreases cv.len() - j,
    {
        if crate::text::str_equal(c[j].0.as_str(), name) && bytes_equal(c[j].1.as_slice(), bytes) {
            proof {
                assert(cv[j as int] == (name@, bytes@));
            }
            return true;
        }
        j = j + 1;
    }
    false
}

/// Decides a generator run from its outcome: the run, the workspace changes
/// `check_generator_changes` judged (or `Ok` where the run was an update),
/// the generated outputs and, except for an update, the committed ones.
#[verifier::loop_isolation(false)]
pub fn finish_generator_run(
    spec: &ProcessSpec,
    output: &ProcessOutput,
    changes: Result<(), AdapterError>,
    generated: &Vec<(String, Vec<u8>)>,
    committed: &Option<Vec<(String, Vec<u8>)>>,
) -> (r: Result<Vec<String>, AdapterError>)
    ensures
        generator_outcome(
            *spec,
            *output,
            changes,
            output_views(generated@),
            match committed {
                Some(c) => Some(output_views(c@)),
                None => None,
            },
            r,
        ),
{
    crate::testing::ensure_success(spec, output)?;
    changes?;
    let names = output_name_lists(generated);
    let lists = crate::text::char_lists(&names);
    if crate::inventory::repeats_a_name(&lists) {
        return Err(AdapterError::Unit("generator output allowlist contains duplicates".to_owned()));
    }
    if let Some(c) = committed {
        let ghost g = output_views(generated@);
        let ghost cv = output_views(c@);
        if generated.len() != c.len() {
            return Err(
                AdapterError::ToolFailed(
                    "freshly generated output bytes differ from the committed exact output inventory".to_owned(),
                ),
            );
        }
        let mut i: usize = 0;
        while i < generated.len()
            invariant
                i <= g.len(),
                g == output_views(generated@),
                cv == output_views(c@),
                forall|k: int| 0 <= k < i ==> cv.contains(#[trigger] g[k]),
            decreases g.len() - i,
        {
            if !holds_output(c, generated[i].0.as_str(), generated[i].1.as_slice()) {
                proof {
                    assert(!cv.contains(g[i as int]));
                }
                return Err(
                    AdapterError::ToolFailed(
                        "freshly generated output bytes differ from the committed exact output inventory".to_owned(),
                    ),
                );
            }
            i = i + 1;
        }
    }
    crate::testing::sorted_unique(names, "generator observed output inventory")
}

} // verus!
