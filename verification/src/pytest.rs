//! Reading pytest's collection output into nodes, and selecting nodes by
//! the test names a unit registers.
use vstd::prelude::*;
use crate::inventory::{compare_chars, sorted_set, sorted_set_of, same_values};
use crate::names::{is_pytest_suffix, is_safe_atom, is_test_tail, safe_pytest_suffix, safe_test_tail};
use crate::paths::components_of;
use crate::paths::components_prefix;
use crate::test_unit::{file_name, is_py_file};
use crate::process::ProcessSpec;
use crate::inventory::has_duplicates;
use crate::testing::{exact_set, exact_set_fault, AdapterError};
use crate::text::{
    chars_of, decimal, push_decimal, split, split_of, split_once, split_once_of, string_of, string_views,
    utf8_error_text, utf8_text, views,
};
use vstd::utf8::{decode_utf8, valid_utf8};

verus! {

/// A collected pytest node: `stem::suffix`, by which units name it, and
/// the node id pytest runs it by.
#[derive(Clone, Debug, PartialEq, Eq)]
pub struct PythonTestNode {
    pub canonical: String,
    pub node_id: String,
}

pub open spec fn node_view(n: PythonTestNode) -> (Seq<char>, Seq<char>) {
    (n.canonical@, n.node_id@)
}

pub open spec fn node_views(ns: Seq<PythonTestNode>) -> Seq<(Seq<char>, Seq<char>)> {
    ns.map_values(|n: PythonTestNode| node_view(n))
}

/// The part of a canonical name after its last `::`.
pub open spec fn name_tail(s: Seq<char>) -> Seq<char> {
    split(s, "::"@).last()
}

/// How many of `nodes[..n]` end in `target`.
pub open spec fn tail_count(nodes: Seq<PythonTestNode>, target: Seq<char>, n: nat) -> nat
    decreases n,
{
    if n == 0 || n > nodes.len() {
        0
    } else if name_tail(nodes[n - 1].canonical@) == target {
        tail_count(nodes, target, (n - 1) as nat) + 1
    } else {
        tail_count(nodes, target, (n - 1) as nat)
    }
}

/// The first node at or after `from` that ends in `target`, or the number
/// of nodes.
pub open spec fn tail_index(nodes: Seq<PythonTestNode>, target: Seq<char>, from: int) -> int
    decreases nodes.len() - from,
{
    if from < 0 || from >= nodes.len() {
        nodes.len() as int
    } else if name_tail(nodes[from].canonical@) == target {
        from
    } else {
        tail_index(nodes, target, from + 1)
    }
}

/// A failure of target resolution, as plain values.
pub enum TargetFault {
    Unit(Seq<char>),
    Inventory(Seq<char>),
}

/// The nodes the first `n` targets select, one each, or why one cannot be
/// resolved: an unsafe target, or one that names no node or several.
pub open spec fn selected_nodes(targets: Seq<Seq<char>>, nodes: Seq<PythonTestNode>, n: nat) -> Result<
    Seq<PythonTestNode>,
    TargetFault,
>
    decreases n,
{
    if n == 0 || n > targets.len() {
        Ok(Seq::empty())
    } else {
        match selected_nodes(targets, nodes, (n - 1) as nat) {
            Err(f) => Err(f),
            Ok(s) => {
                let t = targets[n - 1];
                let count = tail_count(nodes, t, nodes.len());
                if !is_test_tail(t) {
                    Err(TargetFault::Unit("invalid pytest target `"@ + t + "`"@))
                } else if count != 1 {
                    Err(
                        TargetFault::Inventory(
                            "pytest target `"@ + t + "` resolved to "@ + decimal(count) + " nodes"@,
                        ),
                    )
                } else {
                    Ok(s.push(nodes[tail_index(nodes, t, 0)]))
                }
            },
        }
    }
}

/// The canonical names of nodes.
pub open spec fn canonicals(ns: Seq<PythonTestNode>) -> Seq<Seq<char>> {
    ns.map_values(|n: PythonTestNode| n.canonical@)
}

/// What resolving `targets` against the collected `nodes` gives: the
/// selected nodes, which must be exactly the expected inventory, ordered by
/// canonical name; or why it fails.
pub open spec fn resolution_fault(
    targets: Seq<Seq<char>>,
    expected: Seq<Seq<char>>,
    nodes: Seq<PythonTestNode>,
) -> Option<TargetFault> {
    if expected.len() == 0 || targets.len() == 0 {
        Some(TargetFault::Inventory("pytest targets and expected_inventory must be non-empty"@))
    } else {
        match selected_nodes(targets, nodes, targets.len()) {
            Err(f) => Some(f),
            Ok(s) => match exact_set_fault("pytest inventory"@, expected, canonicals(s)) {
                Some(m) => Some(TargetFault::Inventory(m)),
                None => None,
            },
        }
    }
}

/// The error `e` is the fault `f`.
pub open spec fn is_target_fault(e: AdapterError, f: TargetFault) -> bool {
    match f {
        TargetFault::Unit(m) => e matches AdapterError::Unit(x) && x@ == m,
        TargetFault::Inventory(m) => e matches AdapterError::Inventory(x) && x@ == m,
    }
}

/// The part of `s` after its last `::`.
fn tail_of(s: &str) -> (out: Vec<char>)
    ensures
        out@ == name_tail(s@),
{
    let c = chars_of(s);
    let sep = chars_of("::");
    proof {
        reveal_strlit("::");
        crate::text::lemma_split_nonempty(s@, "::"@);
    }
    let parts = split_of(c.as_slice(), sep.as_slice());
    let last = parts.len() - 1;
    let mut out: Vec<char> = Vec::new();
    crate::text::extend_chars(&mut out, parts[last].as_slice());
    proof {
        assert(views(parts@).last() == parts@[last as int]@);
    }
    out
}

/// How many nodes end in `target`, and the first that does.
fn count_tails(nodes: &Vec<PythonTestNode>, target: &str) -> (r: (usize, usize))
    ensures
        r.0 == tail_count(nodes@, target@, nodes@.len()),
        r.1 == tail_index(nodes@, target@, 0),
{
    let t = chars_of(target);
    let mut count: usize = 0;
    let mut first: usize = nodes.len();
    let mut i: usize = 0;
    while i < nodes.len()
        invariant
            t@ == target@,
            i <= nodes@.len(),
            count == tail_count(nodes@, target@, i as nat),
            count <= i,
            first <= nodes@.len(),
            first == nodes@.len() ==> tail_index(nodes@, target@, 0) == tail_index(nodes@, target@, i as int),
            first < nodes@.len() ==> first < i && tail_index(nodes@, target@, 0) == first,
        decreases nodes@.len() - i,
    {
        let tail = tail_of(nodes[i].canonical.as_str());
        proof {
            if tail@ == target@ {
                assert(tail_index(nodes@, target@, i as int) == i);
            } else {
                assert(tail_index(nodes@, target@, i as int) == tail_index(nodes@, target@, i + 1));
            }
        }
        if compare_chars(tail.as_slice(), t.as_slice()) == 0 {
            count = count + 1;
            if first == nodes.len() {
                first = i;
            }
        }
        i = i + 1;
    }
    proof {
        assert(tail_index(nodes@, target@, nodes@.len() as int) == nodes@.len());
    }
    (count, first)
}

proof fn lemma_selected_stop(targets: Seq<Seq<char>>, nodes: Seq<PythonTestNode>, m: nat, n: nat)
    requires
        m <= n <= targets.len(),
        selected_nodes(targets, nodes, m) is Err,
    ensures
        selected_nodes(targets, nodes, n) == selected_nodes(targets, nodes, m),
    decreases n - m,
{
    if m < n {
        lemma_selected_stop(targets, nodes, m, (n - 1) as nat);
    }
}

proof fn lemma_tail_index_found(nodes: Seq<PythonTestNode>, target: Seq<char>, from: int)
    requires
        0 <= from <= nodes.len(),
        tail_count(nodes, target, nodes.len()) > tail_count(nodes, target, from as nat),
    ensures
        from <= tail_index(nodes, target, from) < nodes.len(),
        name_tail(nodes[tail_index(nodes, target, from)].canonical@) == target,
    decreases nodes.len() - from,
{
    if from < nodes.len() && name_tail(nodes[from].canonical@) != target {
        assert(tail_count(nodes, target, (from + 1) as nat) == tail_count(nodes, target, from as nat));
        lemma_tail_index_found(nodes, target, from + 1);
    }
}

/// The nodes the targets select, one each.
fn select_nodes(targets: &Vec<String>, nodes: &Vec<PythonTestNode>) -> (r: Result<Vec<PythonTestNode>, AdapterError>)
    ensures
        match selected_nodes(string_views(targets@), nodes@, targets@.len()) {
            Err(f) => r matches Err(e) && is_target_fault(e, f),
            Ok(s) => r matches Ok(out) && node_views(out@) == node_views(s),
        },
{
    let ghost tv = string_views(targets@);
    let mut out: Vec<PythonTestNode> = Vec::new();
    let mut k: usize = 0;
    proof {
        assert(node_views(out@) =~= node_views(Seq::<PythonTestNode>::empty()));
    }
    while k < targets.len()
        invariant
            tv == string_views(targets@),
            k <= targets@.len(),
            selected_nodes(tv, nodes@, k as nat) matches Ok(s) && node_views(out@) == node_views(s),
        decreases targets@.len() - k,
    {
        let t = targets[k].as_str();
        proof {
            assert(tv[k as int] == t@);
        }
        if !safe_test_tail(t) {
            proof {
                lemma_selected_stop(tv, nodes@, (k + 1) as nat, tv.len());
            }
            return Err(AdapterError::Unit(crate::aeneas::framed("invalid pytest target `", t, "`")));
        }
        let (count, first) = count_tails(nodes, t);
        if count != 1 {
            let mut m = crate::aeneas::framed("pytest target `", t, "` resolved to ");
            push_decimal(&mut m, count as u64);
            m.append(" nodes");
            proof {
                lemma_selected_stop(tv, nodes@, (k + 1) as nat, tv.len());
            }
            return Err(AdapterError::Inventory(m));
        }
        proof {
            lemma_tail_index_found(nodes@, t@, 0);
        }
        let ghost before = node_views(out@);
        let node = PythonTestNode {
            canonical: nodes[first].canonical.clone(),
            node_id: nodes[first].node_id.clone(),
        };
        out.push(node);
        proof {
            let s = selected_nodes(tv, nodes@, k as nat)->Ok_0;
            assert(node_views(s.push(nodes@[first as int])) =~= node_views(s).push(node_view(nodes@[first as int])));
            assert(node_views(out@) =~= before.push(node_view(node)));
        }
        k = k + 1;
    }
    Ok(out)
}

/// The index of the node whose canonical name is `c`.
fn find_canonical(nodes: &Vec<PythonTestNode>, c: &[char]) -> (j: usize)
    requires
        canonicals(nodes@).contains(c@),
    ensures
        j < nodes@.len(),
        nodes@[j as int].canonical@ == c@,
{
    let mut j: usize = 0;
    while j < nodes.len()
        invariant
            j <= nodes@.len(),
            canonicals(nodes@).contains(c@),
            forall|m: int| 0 <= m < j ==> #[trigger] nodes@[m].canonical@ != c@,
        decreases nodes@.len() - j,
    {
        let here = chars_of(nodes[j].canonical.as_str());
        if compare_chars(here.as_slice(), c) == 0 {
            return j;
        }
        j = j + 1;
    }
    proof {
        let m = choose|m: int| 0 <= m < nodes@.len() && canonicals(nodes@)[m] == c@;
        assert(nodes@[m].canonical@ == c@);
    }
    0
}

/// Resolves the registered pytest `targets`, last parts of test names,
/// against the collected `discovered` nodes: each must name exactly one
/// node, and the nodes named must be exactly `expected`. Gives them ordered
/// by canonical name.
pub fn resolve_python_targets(
    targets: &Vec<String>,
    expected: &Vec<String>,
    discovered: &Vec<PythonTestNode>,
) -> (r: Result<Vec<PythonTestNode>, AdapterError>)
    ensures
        match resolution_fault(string_views(targets@), string_views(expected@), discovered@) {
            Some(f) => r matches Err(e) && is_target_fault(e, f),
            None => r matches Ok(out) && ({
                let s = selected_nodes(string_views(targets@), discovered@, targets@.len())->Ok_0;
                &&& canonicals(out@) == sorted_set(canonicals(s))
                &&& forall|k: int| 0 <= k < out@.len() ==> node_views(s).contains(#[trigger] node_view(out@[k]))
            }),
        },
{
    if expected.len() == 0 || targets.len() == 0 {
        return Err(AdapterError::Inventory("pytest targets and expected_inventory must be non-empty".to_owned()));
    }
    let selected = select_nodes(targets, discovered)?;
    let mut actual: Vec<String> = Vec::new();
    let mut i: usize = 0;
    while i < selected.len()
        invariant
            i <= selected@.len(),
            string_views(actual@) == canonicals(selected@).take(i as int),
        decreases selected@.len() - i,
    {
        let ghost before = string_views(actual@);
        actual.push(selected[i].canonical.clone());
        proof {
            assert(canonicals(selected@).take(i + 1) =~= canonicals(selected@).take(i as int).push(
                selected@[i as int].canonical@,
            ));
            assert(string_views(actual@) =~= before.push(selected@[i as int].canonical@));
        }
        i = i + 1;
    }
    proof {
        assert(canonicals(selected@).take(selected@.len() as int) =~= canonicals(selected@));
        let s = selected_nodes(string_views(targets@), discovered@, targets@.len())->Ok_0;
        assert(node_views(selected@).len() == node_views(s).len());
        assert(canonicals(selected@) =~= canonicals(s)) by {
            assert forall|j: int| 0 <= j < s.len() implies canonicals(selected@)[j] == canonicals(s)[j] by {
                assert(node_views(selected@)[j] == node_views(s)[j]);
                assert(node_views(selected@)[j] == node_view(selected@[j]));
                assert(node_views(s)[j] == node_view(s[j]));
            }
        }
    }
    exact_set("pytest inventory", expected, &actual)?;
    let order = sorted_set_of(&crate::text::char_lists(&actual));
    let mut out: Vec<PythonTestNode> = Vec::new();
    let mut k: usize = 0;
    while k < order.len()
        invariant
            k <= order@.len(),
            views(order@) == sorted_set(string_views(actual@)),
            same_values(views(order@), string_views(actual@)),
            string_views(actual@) == canonicals(selected@),
            out@.len() == k,
            forall|j: int| 0 <= j < k ==> #[trigger] out@[j].canonical@ == views(order@)[j],
            forall|j: int| 0 <= j < k ==> node_views(selected@).contains(#[trigger] node_view(out@[j])),
        decreases order@.len() - k,
    {
        let c = order[k].as_slice();
        proof {
            assert(views(order@)[k as int] == c@);
            assert(views(order@).contains(c@));
            assert(canonicals(selected@).contains(c@));
        }
        let j = find_canonical(&selected, c);
        let node = PythonTestNode {
            canonical: selected[j].canonical.clone(),
            node_id: selected[j].node_id.clone(),
        };
        proof {
            assert(node_views(selected@)[j as int] == node_view(node));
        }
        out.push(node);
        k = k + 1;
    }
    proof {
        assert(canonicals(out@) =~= views(order@)) by {
            assert forall|j: int| 0 <= j < out@.len() implies canonicals(out@)[j] == views(order@)[j] by {
                assert(out@[j].canonical@ == views(order@)[j]);
            }
        }
        let s = selected_nodes(string_views(targets@), discovered@, targets@.len())->Ok_0;
        assert(node_views(selected@) == node_views(s));
        assert(canonicals(selected@) == canonicals(s));
    }
    Ok(out)
}

/// The trimmed nonempty lines among the first `n` lines.
pub open spec fn kept_lines(ls: Seq<Seq<char>>, n: nat) -> Seq<Seq<char>>
    decreases n,
{
    if n == 0 || n > ls.len() {
        Seq::empty()
    } else if crate::text::trim(ls[n - 1]).len() > 0 {
        kept_lines(ls, (n - 1) as nat).push(crate::text::trim(ls[n - 1]))
    } else {
        kept_lines(ls, (n - 1) as nat)
    }
}

/// The lines of collection output that pytest prints: trimmed, nonempty.
pub open spec fn collection_lines(text: Seq<char>) -> Seq<Seq<char>> {
    let ls = crate::text::lines(text);
    kept_lines(ls, ls.len())
}

/// A summary line pytest prints around the nodes.
pub open spec fn is_summary_line(l: Seq<char>) -> bool {
    ||| crate::text::ends_with(l, " collected"@)
    ||| crate::text::contains(l, " tests collected in "@)
    ||| crate::text::contains(l, " test collected in "@)
    ||| crate::text::starts_with(l, "="@)
}

/// The file part of each node line among `lines[..n]`, in order.
pub open spec fn node_files(lines: Seq<Seq<char>>, n: nat) -> Seq<Seq<char>>
    decreases n,
{
    if n == 0 || n > lines.len() {
        Seq::empty()
    } else {
        match split_once(lines[n - 1], "::"@) {
            Some((file, _)) => node_files(lines, (n - 1) as nat).push(file),
            None => node_files(lines, (n - 1) as nat),
        }
    }
}

/// Whether `path` lies at or below `root`, component by component, both
/// being absolute or both relative.
pub open spec fn path_starts_with(path: Seq<char>, root: Seq<char>) -> bool {
    &&& (path.len() > 0 && path[0] == '/') == (root.len() > 0 && root[0] == '/')
    &&& components_prefix(root, path)
}

/// The node a collection line names, given the canonical path of its file,
/// or why it cannot stand.
pub open spec fn node_of_line(line: Seq<char>, canonical: Seq<char>, root: Seq<char>) -> Result<
    (Seq<char>, Seq<char>),
    Seq<char>,
> {
    let (file, suffix) = split_once(line, "::"@)->Some_0;
    let name = file_name(canonical);
    let stem = name.take(name.len() - 3);
    if !path_starts_with(canonical, root) || !is_py_file(canonical) {
        Err("pytest node escaped shadow project: `"@ + line + "`"@)
    } else if !is_pytest_suffix(suffix) || !is_safe_atom(stem) {
        Err("invalid pytest node `"@ + line + "`"@)
    } else {
        Ok((stem + "::"@ + suffix, canonical + "::"@ + suffix))
    }
}

/// The nodes the first `n` collection lines name, where the `k`-th node
/// line's file resolved to `resolved[k]`; or why the output cannot be read.
pub open spec fn collected_nodes(
    lines: Seq<Seq<char>>,
    resolved: Seq<Result<String, AdapterError>>,
    root: Seq<char>,
    n: nat,
) -> Result<Seq<(Seq<char>, Seq<char>)>, CollectionFault>
    decreases n,
{
    if n == 0 || n > lines.len() {
        Ok(Seq::empty())
    } else {
        match collected_nodes(lines, resolved, root, (n - 1) as nat) {
            Err(f) => Err(f),
            Ok(s) => {
                let l = lines[n - 1];
                if split_once(l, "::"@) is None {
                    if is_summary_line(l) {
                        Ok(s)
                    } else {
                        Err(CollectionFault::Inventory("unrecognized pytest collection line `"@ + l + "`"@))
                    }
                } else {
                    match resolved[node_files(lines, (n - 1) as nat).len() as int] {
                        Err(e) => Err(CollectionFault::Failed(e)),
                        Ok(c) => match node_of_line(l, c@, root) {
                            Err(m) => Err(CollectionFault::Inventory(m)),
                            Ok(node) => Ok(s.push(node)),
                        },
                    }
                }
            },
        }
    }
}

/// A failure of reading collection output: a message, or the failure met
/// resolving a node's file.
pub enum CollectionFault {
    Inventory(Seq<char>),
    Failed(AdapterError),
}

/// The error `e` is the fault `f`.
pub open spec fn is_collection_fault(e: AdapterError, f: CollectionFault) -> bool {
    match f {
        CollectionFault::Inventory(m) => e matches AdapterError::Inventory(x) && x@ == m,
        CollectionFault::Failed(x) => e == x,
    }
}

/// What pytest's collection output gives, where the shadow root resolved
/// to `root`: the nodes ordered by canonical name, or why it cannot be
/// read.
pub open spec fn collection_outcome(
    bytes: Seq<u8>,
    resolved: Seq<Result<String, AdapterError>>,
    root: Seq<char>,
) -> Result<Seq<(Seq<char>, Seq<char>)>, CollectionFault> {
    if !valid_utf8(bytes) {
        Err(CollectionFault::Inventory(utf8_error_text(bytes)))
    } else {
        let ls = collection_lines(decode_utf8(bytes));
        match collected_nodes(ls, resolved, root, ls.len()) {
            Err(f) => Err(f),
            Ok(nodes) => if has_duplicates(nodes.map_values(|n: (Seq<char>, Seq<char>)| n.0)) {
                Err(
                    CollectionFault::Inventory(
                        "duplicate normalized pytest node (file stems must be unique per unit)"@,
                    ),
                )
            } else {
                Ok(nodes)
            },
        }
    }
}

/// The file of each node line of pytest's collection output, in order;
/// the paths to resolve before the output is read.
pub fn pytest_node_files(bytes: &[u8]) -> (files: Vec<String>)
    ensures
        valid_utf8(bytes@) ==> string_views(files@) == node_files(
            collection_lines(decode_utf8(bytes@)),
            collection_lines(decode_utf8(bytes@)).len(),
        ),
{
    let mut files: Vec<String> = Vec::new();
    let text = match utf8_text(bytes) {
        Ok(t) => t,
        Err(_) => {
            return files;
        },
    };
    let ls = kept_lines_of(text.as_str());
    let sep = chars_of("::");
    let mut i: usize = 0;
    while i < ls.len()
        invariant
            i <= ls@.len(),
            sep@ == "::"@,
            string_views(files@) == node_files(views(ls@), i as nat),
        decreases ls@.len() - i,
    {
        let line = ls[i].as_slice();
        proof {
            assert(views(ls@)[i as int] == line@);
        }
        let ghost before = string_views(files@);
        match split_once_of(line, sep.as_slice()) {
            Some((file, _)) => {
                files.push(string_of(file.as_slice()));
                proof {
                    assert(string_views(files@) =~= before.push(file@));
                }
            },
            None => {},
        }
        i = i + 1;
    }
    files
}

/// The trimmed nonempty lines of `text`.
fn kept_lines_of(text: &str) -> (out: Vec<Vec<char>>)
    ensures
        views(out@) == collection_lines(text@),
{
    let c = chars_of(text);
    let ls = crate::text::lines_of(c.as_slice());
    let mut out: Vec<Vec<char>> = Vec::new();
    let mut i: usize = 0;
    while i < ls.len()
        invariant
            i <= ls@.len(),
            views(ls@) == crate::text::lines(text@),
            views(out@) == kept_lines(views(ls@), i as nat),
        decreases ls@.len() - i,
    {
        let t = crate::text::trim_chars(ls[i].as_slice());
        proof {
            assert(views(ls@)[i as int] == ls@[i as int]@);
        }
        if t.len() > 0 {
            let ghost before = views(out@);
            out.push(t);
            proof {
                assert(views(out@) =~= before.push(crate::text::trim(ls@[i as int]@)));
            }
        }
        i = i + 1;
    }
    out
}

/// The nodes, ordered by canonical name.
fn order_by_canonical(nodes: &Vec<PythonTestNode>) -> (out: Vec<PythonTestNode>)
    requires
        !has_duplicates(canonicals(nodes@)),
    ensures
        canonicals(out@) == sorted_set(canonicals(nodes@)),
        forall|k: int| 0 <= k < out@.len() ==> node_views(nodes@).contains(#[trigger] node_view(out@[k])),
{
    let mut names: Vec<String> = Vec::new();
    let mut i: usize = 0;
    while i < nodes.len()
        invariant
            i <= nodes@.len(),
            string_views(names@) == canonicals(nodes@).take(i as int),
        decreases nodes@.len() - i,
    {
        let ghost before = string_views(names@);
        names.push(nodes[i].canonical.clone());
        proof {
            assert(canonicals(nodes@).take(i + 1) =~= canonicals(nodes@).take(i as int).push(
                nodes@[i as int].canonical@,
            ));
            assert(string_views(names@) =~= before.push(nodes@[i as int].canonical@));
        }
        i = i + 1;
    }
    proof {
        assert(canonicals(nodes@).take(nodes@.len() as int) =~= canonicals(nodes@));
    }
    let order = sorted_set_of(&crate::text::char_lists(&names));
    let mut out: Vec<PythonTestNode> = Vec::new();
    let mut k: usize = 0;
    while k < order.len()
        invariant
            k <= order@.len(),
            views(order@) == sorted_set(canonicals(nodes@)),
            same_values(views(order@), canonicals(nodes@)),
            out@.len() == k,
            forall|j: int| 0 <= j < k ==> #[trigger] out@[j].canonical@ == views(order@)[j],
            forall|j: int| 0 <= j < k ==> node_views(nodes@).contains(#[trigger] node_view(out@[j])),
        decreases order@.len() - k,
    {
        let c = order[k].as_slice();
        proof {
            assert(views(order@)[k as int] == c@);
            assert(views(order@).contains(c@));
        }
        let j = find_canonical(nodes, c);
        let node = PythonTestNode { canonical: nodes[j].canonical.clone(), node_id: nodes[j].node_id.clone() };
        proof {
            assert(node_views(nodes@)[j as int] == node_view(node));
        }
        out.push(node);
        k = k + 1;
    }
    proof {
        assert(canonicals(out@) =~= views(order@)) by {
            assert forall|j: int| 0 <= j < out@.len() implies canonicals(out@)[j] == views(order@)[j] by {
                assert(out@[j].canonical@ == views(order@)[j]);
            }
        }
    }
    out
}

/// Whether a collection line is a summary line.
fn summary_line(l: &[char]) -> (b: bool)
    ensures
        b == is_summary_line(l@),
{
    let collected = chars_of(" collected");
    let tests = chars_of(" tests collected in ");
    let test = chars_of(" test collected in ");
    let bar = chars_of("=");
    let ends = l.len() >= collected.len() && crate::text::matches_at(
        l,
        collected.as_slice(),
        l.len() - collected.len(),
    );
    proof {
        if l@.len() < collected@.len() {
            assert(!crate::text::occurs_at(l@, collected@, l@.len() - collected@.len()));
        }
    }
    ends || crate::text::find_in(l, tests.as_slice(), 0).is_some() || crate::text::find_in(
        l,
        test.as_slice(),
        0,
    ).is_some() || crate::text::matches_at(l, bar.as_slice(), 0)
}

/// Whether `path` lies at or below `root`.
pub(crate) fn starts_with_path(path: &str, root: &str) -> (b: bool)
    ensures
        b == path_starts_with(path@, root@),
{
    let p = chars_of(path);
    let r = chars_of(root);
    let p_abs = p.len() > 0 && p[0] == '/';
    let r_abs = r.len() > 0 && r[0] == '/';
    if p_abs != r_abs {
        return false;
    }
    let pc = components_of(p.as_slice());
    let rc = components_of(r.as_slice());
    crate::paths::parts_prefix(&rc, &pc)
}

/// Reads one node line whose file resolved to `canonical`.
fn read_node_line(line: &[char], file_and_suffix: (Vec<char>, Vec<char>), canonical: &str, root: &str) -> (r: Result<
    PythonTestNode,
    AdapterError,
>)
    requires
        split_once(line@, "::"@) == Some((file_and_suffix.0@, file_and_suffix.1@)),
    ensures
        match node_of_line(line@, canonical@, root@) {
            Err(m) => r matches Err(AdapterError::Inventory(x)) && x@ == m,
            Ok(node) => r matches Ok(n) && node_view(n) == node,
        },
{
    let suffix = string_of(file_and_suffix.1.as_slice());
    let text = string_of(line);
    if !starts_with_path(canonical, root) || !crate::test_unit::py_file(canonical) {
        return Err(AdapterError::Inventory(crate::aeneas::framed("pytest node escaped shadow project: `", text.as_str(), "`")));
    }
    let c = chars_of(canonical);
    let parts = components_of(c.as_slice());
    let name = parts[parts.len() - 1].as_slice();
    proof {
        assert(views(parts@).last() == name@);
    }
    let mut stem: Vec<char> = Vec::new();
    crate::text::extend_range(&mut stem, name, 0, name.len() - 3);
    proof {
        assert(stem@ =~= file_name(canonical@).take(file_name(canonical@).len() - 3));
    }
    if !safe_pytest_suffix(suffix.as_str()) || !crate::names::safe_atom_chars(stem.as_slice()) {
        return Err(AdapterError::Inventory(crate::aeneas::framed("invalid pytest node `", text.as_str(), "`")));
    }
    let stem_text = string_of(stem.as_slice());
    Ok(PythonTestNode {
        canonical: crate::aeneas::framed(stem_text.as_str(), "::", suffix.as_str()),
        node_id: crate::aeneas::framed(canonical, "::", suffix.as_str()),
    })
}

proof fn lemma_collected_stop(
    lines: Seq<Seq<char>>,
    resolved: Seq<Result<String, AdapterError>>,
    root: Seq<char>,
    m: nat,
    n: nat,
)
    requires
        m <= n <= lines.len(),
        collected_nodes(lines, resolved, root, m) is Err,
    ensures
        collected_nodes(lines, resolved, root, n) == collected_nodes(lines, resolved, root, m),
    decreases n - m,
{
    if m < n {
        lemma_collected_stop(lines, resolved, root, m, (n - 1) as nat);
    }
}

/// Reads pytest's collection output, where the shadow root resolved to
/// `shadow_root` and `resolved` holds, for each node line in order, the
/// canonical path of its file or the failure met resolving it. Gives the
/// nodes ordered by canonical name.
#[verifier::loop_isolation(false)]
pub fn parse_pytest_inventory(bytes: &[u8], resolved: Vec<Result<String, AdapterError>>, shadow_root: &str) -> (r:
    Result<Vec<PythonTestNode>, AdapterError>)
    requires
        valid_utf8(bytes@) ==> resolved@.len() == node_files(
            collection_lines(decode_utf8(bytes@)),
            collection_lines(decode_utf8(bytes@)).len(),
        ).len(),
    ensures
        match collection_outcome(bytes@, resolved@, shadow_root@) {
            Err(f) => r matches Err(e) && is_collection_fault(e, f),
            Ok(nodes) => r matches Ok(out) && canonicals(out@) == sorted_set(
                nodes.map_values(|n: (Seq<char>, Seq<char>)| n.0),
            ) && forall|k: int| 0 <= k < out@.len() ==> nodes.contains(#[trigger] node_view(out@[k])),
        },
{
    let text = match utf8_text(bytes) {
        Ok(t) => t,
        Err(e) => {
            return Err(AdapterError::Inventory(e));
        },
    };
    let ls = kept_lines_of(text.as_str());
    let ghost lines = views(ls@);
    let ghost all = resolved@;
    let ghost root = shadow_root@;
    let mut rest = resolved;
    let sep = chars_of("::");
    let mut nodes: Vec<PythonTestNode> = Vec::new();
    let mut i: usize = 0;
    proof {
        assert(node_views(nodes@) =~= Seq::<(Seq<char>, Seq<char>)>::empty());
    }
    while i < ls.len()
        invariant
            lines == views(ls@),
            lines == collection_lines(decode_utf8(bytes@)),
            all.len() == node_files(lines, lines.len()).len(),
            sep@ == "::"@,
            i <= ls@.len(),
            node_files(lines, i as nat).len() <= all.len(),
            rest@ == all.skip(node_files(lines, i as nat).len() as int),
            collected_nodes(lines, all, root, i as nat) == Ok::<Seq<(Seq<char>, Seq<char>)>, CollectionFault>(
                node_views(nodes@),
            ),
        decreases ls@.len() - i,
    {
        let line = ls[i].as_slice();
        proof {
            assert(lines[i as int] == line@);
            lemma_node_files_grow(lines, (i + 1) as nat, lines.len());
        }
        match split_once_of(line, sep.as_slice()) {
            None => {
                if !summary_line(line) {
                    proof {
                        lemma_collected_stop(lines, all, root, (i + 1) as nat, lines.len());
                    }
                    let t = string_of(line);
                    return Err(
                        AdapterError::Inventory(
                            crate::aeneas::framed("unrecognized pytest collection line `", t.as_str(), "`"),
                        ),
                    );
                }
            },
            Some(parts) => {
                let ghost k = node_files(lines, i as nat).len();
                proof {
                    assert(rest@.len() > 0);
                }
                let found = rest.remove(0);
                proof {
                    assert(found == all[k as int]);
                    assert(rest@ =~= all.skip(k + 1 as int));
                }
                match found {
                    Err(e) => {
                        proof {
                            lemma_collected_stop(lines, all, root, (i + 1) as nat, lines.len());
                        }
                        return Err(e);
                    },
                    Ok(c) => {
                        match read_node_line(line, parts, c.as_str(), shadow_root) {
                            Err(e) => {
                                proof {
                                    lemma_collected_stop(lines, all, root, (i + 1) as nat, lines.len());
                                }
                                return Err(e);
                            },
                            Ok(node) => {
                                let ghost before = node_views(nodes@);
                                nodes.push(node);
                                proof {
                                    assert(node_views(nodes@) =~= before.push(node_view(node)));
                                }
                            },
                        }
                    },
                }
            },
        }
        i = i + 1;
    }
    let ghost collected = node_views(nodes@);
    proof {
        assert(collected.map_values(|n: (Seq<char>, Seq<char>)| n.0) =~= canonicals(nodes@));
    }
    let mut names: Vec<String> = Vec::new();
    let mut j: usize = 0;
    while j < nodes.len()
        invariant
            j <= nodes@.len(),
            string_views(names@) == canonicals(nodes@).take(j as int),
        decreases nodes@.len() - j,
    {
        let ghost before = string_views(names@);
        names.push(nodes[j].canonical.clone());
        proof {
            assert(canonicals(nodes@).take(j + 1) =~= canonicals(nodes@).take(j as int).push(
                nodes@[j as int].canonical@,
            ));
            assert(string_views(names@) =~= before.push(nodes@[j as int].canonical@));
        }
        j = j + 1;
    }
    proof {
        assert(canonicals(nodes@).take(nodes@.len() as int) =~= canonicals(nodes@));
    }
    if crate::inventory::repeats_a_name(&crate::text::char_lists(&names)) {
        return Err(AdapterError::Inventory("duplicate normalized pytest node (file stems must be unique per unit)".to_owned()));
    }
    Ok(order_by_canonical(&nodes))
}

/// The node lines counted so far never exceed those of the whole output.
proof fn lemma_node_files_grow(lines: Seq<Seq<char>>, m: nat, n: nat)
    requires
        m <= n <= lines.len(),
    ensures
        node_files(lines, m).len() <= node_files(lines, n).len(),
    decreases n - m,
{
    if m < n {
        lemma_node_files_grow(lines, m, (n - 1) as nat);
    }
}


/// A checker run as the caller resolved it in the shadow copy.
pub struct CheckerRun {
    /// The request's operation.
    pub operation: String,
    /// The unit's checker.
    pub checker: Option<String>,
    /// The checker's path in the shadow copy and whether it is a regular
    /// file there, or why it did not resolve.
    pub shadow_checker: Result<(String, bool), AdapterError>,
    /// The unit's arguments, passed to the checker as registered.
    pub arguments: Vec<String>,
    /// For each argument, whether it resolved to a regular file or a
    /// directory in the shadow copy, or why it did not resolve.
    pub argument_kinds: Vec<Result<bool, AdapterError>>,
    /// For each of the unit's paths, whether it resolved in the shadow copy.
    pub path_checks: Vec<Result<(), AdapterError>>,
}

/// The first argument that did not resolve to a file or directory, with
/// the failure it gives.
pub open spec fn bad_argument(arguments: Seq<String>, kinds: Seq<Result<bool, AdapterError>>, n: nat) -> Option<
    AdapterError,
>
    decreases n,
{
    if n == 0 {
        None
    } else {
        match bad_argument(arguments, kinds, (n - 1) as nat) {
            Some(e) => Some(e),
            None => match kinds[n - 1] {
                Err(e) => Some(e),
                Ok(false) => Some(AdapterError::UnsafePath(arguments[n - 1])),
                Ok(true) => None,
            },
        }
    }
}

/// The first unit path that did not resolve, with its failure.
pub open spec fn bad_path(checks: Seq<Result<(), AdapterError>>, n: nat) -> Option<AdapterError>
    decreases n,
{
    if n == 0 {
        None
    } else {
        match bad_path(checks, (n - 1) as nat) {
            Some(e) => Some(e),
            None => match checks[n - 1] {
                Err(e) => Some(e),
                Ok(()) => None,
            },
        }
    }
}

/// What a checker run decides before it runs: `python3` with the checker's
/// shadow path and the registered arguments, or why it cannot run.
pub open spec fn checker_plan(c: CheckerRun, r: Result<ProcessSpec, AdapterError>) -> bool {
    if c.checker is None {
        r matches Err(AdapterError::Unit(m)) && m@ == "checker operation requires a checker"@
    } else if c.shadow_checker is Err {
        r == Err::<ProcessSpec, AdapterError>(c.shadow_checker->Err_0)
    } else if !c.shadow_checker->Ok_0.1 || !is_py_file(c.shadow_checker->Ok_0.0@) {
        r matches Err(AdapterError::UnsafePath(p)) && p@ == c.checker->0@
    } else if bad_argument(c.arguments@, c.argument_kinds@, c.arguments@.len()) is Some {
        r == Err::<ProcessSpec, AdapterError>(bad_argument(c.arguments@, c.argument_kinds@, c.arguments@.len())->0)
    } else if bad_path(c.path_checks@, c.path_checks@.len()) is Some {
        r == Err::<ProcessSpec, AdapterError>(bad_path(c.path_checks@, c.path_checks@.len())->0)
    } else if !(c.operation@ == "inventory"@ || c.operation@ == "check"@ || c.operation@ == "reproduce"@) {
        r matches Err(AdapterError::Request(m)) && m@ == "checker executes only for inventory, check, or reproduce"@
    } else {
        r matches Ok(spec) && spec.program@ == "python3"@ && string_views(spec.args@) == seq![
            c.shadow_checker->Ok_0.0@,
        ] + string_views(c.arguments@)
    }
}

/// Plans a checker run: the checker must be a `.py` regular file in the
/// shadow copy, each argument a file or directory there and each unit path
/// inside it, and the operation one that runs checkers.
pub fn plan_checker_run(c: CheckerRun) -> (r: Result<ProcessSpec, AdapterError>)
    requires
        c.argument_kinds@.len() == c.arguments@.len(),
    ensures
        checker_plan(c, r),
{
    let ghost g = c;
    let CheckerRun { operation, checker, shadow_checker, arguments, argument_kinds, path_checks } = c;
    let checker = match checker {
        None => {
            return Err(AdapterError::Unit("checker operation requires a checker".to_owned()));
        },
        Some(name) => name,
    };
    let (path, is_file) = match shadow_checker {
        Err(e) => {
            return Err(e);
        },
        Ok(p) => p,
    };
    if !is_file || !crate::test_unit::py_file(path.as_str()) {
        return Err(AdapterError::UnsafePath(checker));
    }
    let mut kinds = argument_kinds;
    let mut k: usize = kinds.len();
    let mut first: Option<AdapterError> = None;
    let ghost kv = kinds@;
    while k > 0
        invariant
            k <= kv.len(),
            kv.len() == arguments@.len(),
            kinds@ == kv.take(k as int),
            bad_argument(arguments@, kv, kv.len()) == match bad_argument(arguments@, kv, k as nat) {
                Some(e) => Some(e),
                None => first,
            },
        decreases k,
    {
        let kind = kinds.pop().unwrap();
        proof {
            assert(kv.take(k as int).last() == kv[k - 1]);
            assert(kv.take(k as int).drop_last() =~= kv.take(k - 1));
        }
        match kind {
            Err(e) => {
                first = Some(e);
            },
            Ok(false) => {
                first = Some(AdapterError::UnsafePath(arguments[k - 1].clone()));
            },
            Ok(true) => {},
        }
        k = k - 1;
    }
    if let Some(e) = first {
        return Err(e);
    }
    let mut checks = path_checks;
    let mut j: usize = checks.len();
    let mut failed: Option<AdapterError> = None;
    let ghost pv = checks@;
    while j > 0
        invariant
            j <= pv.len(),
            checks@ == pv.take(j as int),
            bad_path(pv, pv.len()) == match bad_path(pv, j as nat) {
                Some(e) => Some(e),
                None => failed,
            },
        decreases j,
    {
        let check = checks.pop().unwrap();
        proof {
            assert(pv.take(j as int).last() == pv[j - 1]);
            assert(pv.take(j as int).drop_last() =~= pv.take(j - 1));
        }
        if let Err(e) = check {
            failed = Some(e);
        }
        j = j - 1;
    }
    if let Some(e) = failed {
        return Err(e);
    }
    if !(crate::text::str_equal(operation.as_str(), "inventory") || crate::text::str_equal(operation.as_str(), "check")
        || crate::text::str_equal(operation.as_str(), "reproduce")) {
        return Err(AdapterError::Request("checker executes only for inventory, check, or reproduce".to_owned()));
    }
    let mut args: Vec<String> = vec![path];
    let mut i: usize = 0;
    while i < arguments.len()
        invariant
            i <= arguments@.len(),
            string_views(args@) == seq![g.shadow_checker->Ok_0.0@] + string_views(arguments@).take(i as int),
        decreases arguments@.len() - i,
    {
        let ghost before = string_views(args@);
        let a = arguments[i].clone();
        args.push(a);
        proof {
            assert(string_views(args@) =~= before.push(a@));
            assert(string_views(arguments@).take(i + 1) =~= string_views(arguments@).take(i as int).push(a@));
        }
        i = i + 1;
    }
    proof {
        assert(string_views(arguments@).take(arguments@.len() as int) =~= string_views(arguments@));
    }
    Ok(ProcessSpec { program: "python3".to_owned(), args })
}

} // verus!
