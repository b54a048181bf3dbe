//! Reading the JSON messages of `cargo test --no-run --message-format=json`
//! into the test binaries a build produced.
use vstd::prelude::*;
use crate::inventory::{same_values, sorted_set, sorted_set_of};
use crate::json::JsonValue;
use crate::names::{is_safe_atom, safe_atom};
use crate::pytest::starts_with_path;
use crate::pytest::path_starts_with;
use crate::testing::AdapterError;
use crate::text::{decimal, push_decimal, str_equal, string_views, views};
use crate::vitest::{get_str, json_get, value_get, value_str};

verus! {

/// A test binary by its Cargo target name and the canonical path of its
/// executable.
#[derive(Clone, Debug, PartialEq, Eq)]
pub struct RustTestBinary {
    pub target: String,
    pub executable: String,
}

/// Whether a message's `profile.test` is `true`.
pub open spec fn profile_test(v: JsonValue) -> bool {
    match json_get(v, "profile"@) {
        Some(p) => json_get(p, "test"@) == Some(JsonValue::Bool(true)),
        None => false,
    }
}

/// The `target.name` of a message, where it is a string.
pub open spec fn target_name(v: JsonValue) -> Option<Seq<char>> {
    match json_get(v, "target"@) {
        Some(t) => get_str(t, "name"@),
        None => None,
    }
}

/// A compiler artifact that is a test executable of a safely named
/// target: its executable is resolved before the messages are read.
pub open spec fn test_executable(line: Option<Result<JsonValue, String>>) -> Option<Seq<char>> {
    match line {
        Some(Ok(v)) => if get_str(v, "reason"@) == Some("compiler-artifact"@) && profile_test(v) {
            match (get_str(v, "executable"@), target_name(v)) {
                (Some(e), Some(t)) => if is_safe_atom(t) {
                    Some(e)
                } else {
                    None
                },
                _ => None,
            }
        } else {
            None
        },
        _ => None,
    }
}

/// The executables of `lines[..n]` to resolve, in order.
pub open spec fn test_executables(lines: Seq<Option<Result<JsonValue, String>>>, n: nat) -> Seq<Seq<char>>
    decreases n,
{
    if n == 0 || n > lines.len() {
        Seq::empty()
    } else {
        match test_executable(lines[n - 1]) {
            Some(e) => test_executables(lines, (n - 1) as nat).push(e),
            None => test_executables(lines, (n - 1) as nat),
        }
    }
}

/// A failure of reading Cargo's messages: a message, or the failure met
/// resolving an executable.
pub enum CargoFault {
    Inventory(Seq<char>),
    Failed(AdapterError),
}

/// The error `e` is the fault `f`.
pub open spec fn is_cargo_fault(e: AdapterError, f: CargoFault) -> bool {
    match f {
        CargoFault::Inventory(m) => e matches AdapterError::Inventory(x) && x@ == m,
        CargoFault::Failed(x) => e == x,
    }
}

/// The binaries line `i` (message `i + 1`) adds to `found`, or why it
/// fails; `resolution` is what its executable resolved to, if it names one:
/// a canonical path and whether it is a regular file.
pub open spec fn line_step(
    line: Option<Result<JsonValue, String>>,
    i: int,
    resolution: Result<(String, bool), AdapterError>,
    root: Seq<char>,
    found: Seq<(Seq<char>, Seq<char>)>,
) -> Result<Seq<(Seq<char>, Seq<char>)>, CargoFault> {
    match line {
        None => Ok(found),
        Some(Err(e)) => Err(CargoFault::Inventory("cargo JSON line "@ + decimal((i + 1) as nat) + ": "@ + e@)),
        Some(Ok(v)) => match get_str(v, "reason"@) {
            None => Err(CargoFault::Inventory("cargo message has no reason"@)),
            Some(reason) => if reason == "compiler-artifact"@ {
                if get_str(v, "executable"@) is None || !profile_test(v) {
                    Ok(found)
                } else {
                    match target_name(v) {
                        None => Err(CargoFault::Inventory("Cargo test artifact has no target name"@)),
                        Some(t) => if !is_safe_atom(t) {
                            Err(CargoFault::Inventory("unsafe Cargo target `"@ + t + "`"@))
                        } else {
                            match resolution {
                                Err(e) => Err(CargoFault::Failed(e)),
                                Ok((path, is_file)) => if !path_starts_with(path@, root) || !is_file {
                                    Err(CargoFault::Inventory("Cargo test executable escaped the shadow project"@))
                                } else if exists|j: int| 0 <= j < found.len() && #[trigger] found[j].0 == t {
                                    Err(CargoFault::Inventory("duplicate Cargo test target `"@ + t + "`"@))
                                } else {
                                    Ok(found.push((t, path@)))
                                },
                            }
                        },
                    }
                }
            } else if reason == "build-finished"@ {
                if json_get(v, "success"@) == Some(JsonValue::Bool(true)) {
                    Ok(found)
                } else {
                    Err(CargoFault::Inventory("Cargo reported an unsuccessful build"@))
                }
            } else if reason == "compiler-message"@ || reason == "build-script-executed"@ || reason
                == "artifact"@ {
                Ok(found)
            } else {
                Err(CargoFault::Inventory("unsupported Cargo JSON reason `"@ + reason + "`"@))
            },
        },
    }
}

/// The test binaries the first `n` lines name, by target and executable,
/// in the order met, or why the messages cannot be read; `resolved[k]` is
/// what the `k`-th executable to resolve resolved to.
pub open spec fn binaries_of(
    lines: Seq<Option<Result<JsonValue, String>>>,
    resolved: Seq<Result<(String, bool), AdapterError>>,
    root: Seq<char>,
    n: nat,
) -> Result<Seq<(Seq<char>, Seq<char>)>, CargoFault>
    decreases n,
{
    if n == 0 || n > lines.len() {
        Ok(Seq::empty())
    } else {
        match binaries_of(lines, resolved, root, (n - 1) as nat) {
            Err(f) => Err(f),
            Ok(found) => line_step(
                lines[n - 1],
                n - 1,
                resolved[test_executables(lines, (n - 1) as nat).len() as int],
                root,
                found,
            ),
        }
    }
}


pub open spec fn binary_view(b: RustTestBinary) -> (Seq<char>, Seq<char>) {
    (b.target@, b.executable@)
}

pub open spec fn binary_views(bs: Seq<RustTestBinary>) -> Seq<(Seq<char>, Seq<char>)> {
    bs.map_values(|b: RustTestBinary| binary_view(b))
}

pub open spec fn targets(bs: Seq<RustTestBinary>) -> Seq<Seq<char>> {
    bs.map_values(|b: RustTestBinary| b.target@)
}

fn read_profile_test(v: &JsonValue) -> (b: bool)
    ensures
        b == profile_test(*v),
{
    match value_get(v, "profile") {
        Some(p) => match value_get(p, "test") {
            Some(JsonValue::Bool(t)) => *t,
            _ => false,
        },
        None => false,
    }
}

fn read_target_name(v: &JsonValue) -> (r: Option<&str>)
    ensures
        match r {
            Some(t) => target_name(*v) == Some(t@),
            None => target_name(*v) is None,
        },
{
    match value_get(v, "target") {
        Some(t) => value_str(t, "name"),
        None => None,
    }
}

fn read_test_executable(line: &Option<Result<JsonValue, String>>) -> (r: Option<String>)
    ensures
        match r {
            Some(e) => test_executable(*line) == Some(e@),
            None => test_executable(*line) is None,
        },
{
    match line {
        Some(Ok(v)) => {
            let artifact = match value_str(v, "reason") {
                Some(reason) => str_equal(reason, "compiler-artifact"),
                None => false,
            };
            if !artifact || !read_profile_test(v) {
                return None;
            }
            match (value_str(v, "executable"), read_target_name(v)) {
                (Some(e), Some(t)) => if safe_atom(t) {
                    Some(e.to_string())
                } else {
                    None
                },
                _ => None,
            }
        },
        _ => None,
    }
}

/// The executables that Cargo's messages name for test targets, in the
/// order met: each is to be resolved before the messages are read.
pub fn cargo_test_executables(lines: &Vec<Option<Result<JsonValue, String>>>) -> (out: Vec<String>)
    ensures
        string_views(out@) == test_executables(lines@, lines@.len() as nat),
{
    let mut out: Vec<String> = Vec::new();
    let mut i: usize = 0;
    while i < lines.len()
        invariant
            i <= lines@.len(),
            string_views(out@) == test_executables(lines@, i as nat),
        decreases lines@.len() - i,
    {
        match read_test_executable(&lines[i]) {
            Some(e) => {
                let ghost before = string_views(out@);
                out.push(e);
                proof {
                    assert(string_views(out@) =~= before.push(e@));
                }
            },
            None => {},
        }
        i = i + 1;
    }
    out
}

proof fn lemma_executables_grow(lines: Seq<Option<Result<JsonValue, String>>>, m: nat, n: nat)
    requires
        m <= n <= lines.len(),
    ensures
        test_executables(lines, m).len() <= test_executables(lines, n).len(),
    decreases n - m,
{
    if m < n {
        lemma_executables_grow(lines, m, (n - 1) as nat);
    }
}

proof fn lemma_binaries_stop(
    lines: Seq<Option<Result<JsonValue, String>>>,
    resolved: Seq<Result<(String, bool), AdapterError>>,
    root: Seq<char>,
    m: nat,
    n: nat,
)
    requires
        m <= n <= lines.len(),
        binaries_of(lines, resolved, root, m) is Err,
    ensures
        binaries_of(lines, resolved, root, n) == binaries_of(lines, resolved, root, m),
    decreases n - m,
{
    if m < n {
        lemma_binaries_stop(lines, resolved, root, m, (n - 1) as nat);
    }
}

fn inventory_error(m: String) -> (e: AdapterError)
    ensures
        e matches AdapterError::Inventory(x) && x@ == m@,
{
    AdapterError::Inventory(m)
}

/// Index of the binary whose target is `t`, if any.
fn find_target(bins: &Vec<RustTestBinary>, t: &str) -> (r: Option<usize>)
    ensures
        match r {
            Some(j) => j < bins@.len() && bins@[j as int].target@ == t@,
            None => forall|j: int| 0 <= j < bins@.len() ==> #[trigger] bins@[j].target@ != t@,
        },
{
    let mut j: usize = 0;
    while j < bins.len()
        invariant
            j <= bins@.len(),
            forall|m: int| 0 <= m < j ==> #[trigger] bins@[m].target@ != t@,
        decreases bins@.len() - j,
    {
        if str_equal(bins[j].target.as_str(), t) {
            return Some(j);
        }
        j = j + 1;
    }
    None
}

/// The binaries, ordered by target.
fn order_by_target(bins: &Vec<RustTestBinary>) -> (out: Vec<RustTestBinary>)
    ensures
        targets(out@) == sorted_set(targets(bins@)),
        forall|k: int| 0 <= k < out@.len() ==> binary_views(bins@).contains(#[trigger] binary_view(out@[k])),
{
    let mut names: Vec<String> = Vec::new();
    let mut i: usize = 0;
    while i < bins.len()
        invariant
            i <= bins@.len(),
            string_views(names@) == targets(bins@).take(i as int),
        decreases bins@.len() - i,
    {
        let ghost before = string_views(names@);
        names.push(bins[i].target.clone());
        proof {
            assert(targets(bins@).take(i + 1) =~= targets(bins@).take(i as int).push(bins@[i as int].target@));
            assert(string_views(names@) =~= before.push(bins@[i as int].target@));
        }
        i = i + 1;
    }
    proof {
        assert(targets(bins@).take(bins@.len() as int) =~= targets(bins@));
    }
    let order = sorted_set_of(&crate::text::char_lists(&names));
    let mut out: Vec<RustTestBinary> = Vec::new();
    let mut k: usize = 0;
    while k < order.len()
        invariant
            k <= order@.len(),
            views(order@) == sorted_set(targets(bins@)),
            same_values(views(order@), targets(bins@)),
            out@.len() == k,
            forall|j: int| 0 <= j < k ==> #[trigger] out@[j].target@ == views(order@)[j],
            forall|j: int| 0 <= j < k ==> binary_views(bins@).contains(#[trigger] binary_view(out@[j])),
        decreases order@.len() - k,
    {
        let c = crate::text::string_of(order[k].as_slice());
        proof {
            assert(views(order@)[k as int] == c@);
            assert(views(order@).contains(c@));
        }
        match find_target(bins, c.as_str()) {
            Some(j) => {
                let b = RustTestBinary { target: bins[j].target.clone(), executable: bins[j].executable.clone() };
                proof {
                    assert(binary_views(bins@)[j as int] == binary_view(b));
                }
                out.push(b);
            },
            None => {
                proof {
                    let m = choose|m: int| 0 <= m < targets(bins@).len() && targets(bins@)[m] == c@;
                    assert(bins@[m].target@ == c@);
                }
            },
        }
        k = k + 1;
    }
    proof {
        assert(targets(out@) =~= views(order@)) by {
            assert forall|j: int| 0 <= j < out@.len() implies targets(out@)[j] == views(order@)[j] by {
                assert(out@[j].target@ == views(order@)[j]);
            }
        }
    }
    out
}

/// Reads Cargo's JSON messages, one parsed value per line (nothing for an
/// empty line, the parse failure for a line that is no JSON), where the
/// shadow root resolved to `shadow_root` and `resolved` holds, for each
/// executable `cargo_test_executables` names, its canonical path and
/// whether it is a regular file, or the failure met resolving it. Gives the
/// test binaries ordered by target.
#[verifier::loop_isolation(false)]
pub fn parse_cargo_test_binaries(
    lines: &Vec<Option<Result<JsonValue, String>>>,
    resolved: Vec<Result<(String, bool), AdapterError>>,
    shadow_root: &str,
) -> (r: Result<Vec<RustTestBinary>, AdapterError>)
    requires
        resolved@.len() == test_executables(lines@, lines@.len() as nat).len(),
    ensures
        match binaries_of(lines@, resolved@, shadow_root@, lines@.len() as nat) {
            Err(f) => r matches Err(e) && is_cargo_fault(e, f),
            Ok(found) => r matches Ok(out) && targets(out@) == sorted_set(
                found.map_values(|b: (Seq<char>, Seq<char>)| b.0),
            ) && forall|k: int| 0 <= k < out@.len() ==> found.contains(#[trigger] binary_view(out@[k])),
        },
{
    let ghost all = resolved@;
    let ghost root = shadow_root@;
    let ghost ls = lines@;
    let mut rest = resolved;
    let mut bins: Vec<RustTestBinary> = Vec::new();
    let mut i: usize = 0;
    proof {
        assert(binary_views(bins@) =~= Seq::<(Seq<char>, Seq<char>)>::empty());
    }
    while i < lines.len()
        invariant
            ls == lines@,
            all.len() == test_executables(ls, ls.len() as nat).len(),
            i <= ls.len(),
            test_executables(ls, i as nat).len() <= all.len(),
            rest@ == all.skip(test_executables(ls, i as nat).len() as int),
            binaries_of(ls, all, root, i as nat) == Ok::<Seq<(Seq<char>, Seq<char>)>, CargoFault>(
                binary_views(bins@),
            ),
        decreases ls.len() - i,
    {
        proof {
            lemma_executables_grow(ls, (i + 1) as nat, ls.len() as nat);
        }
        let ghost k = test_executables(ls, i as nat).len();
        let ghost found = binary_views(bins@);
        match &lines[i] {
            None => {},
            Some(Err(e)) => {
                proof {
                    lemma_binaries_stop(ls, all, root, (i + 1) as nat, ls.len() as nat);
                }
                let mut m = "cargo JSON line ".to_string();
                push_decimal(&mut m, (i + 1) as u64);
                m.append(": ");
                m.append(e.as_str());
                return Err(inventory_error(m));
            },
            Some(Ok(v)) => {
                let reason = match value_str(v, "reason") {
                    Some(x) => x,
                    None => {
                        proof {
                            lemma_binaries_stop(ls, all, root, (i + 1) as nat, ls.len() as nat);
                        }
                        return Err(inventory_error("cargo message has no reason".to_string()));
                    },
                };
                if str_equal(reason, "compiler-artifact") {
                    if value_str(v, "executable").is_some() && read_profile_test(v) {
                        let t = match read_target_name(v) {
                            Some(t) => t,
                            None => {
                                proof {
                                    lemma_binaries_stop(ls, all, root, (i + 1) as nat, ls.len() as nat);
                                }
                                return Err(inventory_error("Cargo test artifact has no target name".to_string()));
                            },
                        };
                        if !safe_atom(t) {
                            proof {
                                lemma_binaries_stop(ls, all, root, (i + 1) as nat, ls.len() as nat);
                            }
                            return Err(inventory_error(crate::aeneas::framed("unsafe Cargo target `", t, "`")));
                        }
                        proof {
                            assert(test_executable(ls[i as int]) is Some);
                            assert(rest@.len() > 0);
                        }
                        let got = rest.remove(0);
                        proof {
                            assert(got == all[k as int]);
                            assert(rest@ =~= all.skip(k + 1 as int));
                        }
                        match got {
                            Err(e) => {
                                proof {
                                    lemma_binaries_stop(ls, all, root, (i + 1) as nat, ls.len() as nat);
                                }
                                return Err(e);
                            },
                            Ok((path, is_file)) => {
                                if !starts_with_path(path.as_str(), shadow_root) || !is_file {
                                    proof {
                                        lemma_binaries_stop(ls, all, root, (i + 1) as nat, ls.len() as nat);
                                    }
                                    return Err(inventory_error("Cargo test executable escaped the shadow project".to_string()));
                                }
                                match find_target(&bins, t) {
                                    Some(j) => {
                                        proof {
                                            assert(found[j as int].0 == t@);
                                            lemma_binaries_stop(ls, all, root, (i + 1) as nat, ls.len() as nat);
                                        }
                                        return Err(inventory_error(crate::aeneas::framed("duplicate Cargo test target `", t, "`")));
                                    },
                                    None => {
                                        proof {
                                            assert forall|j: int| 0 <= j < found.len() implies #[trigger] found[j].0 != t@ by {
                                                assert(found[j].0 == bins@[j].target@);
                                            }
                                        }
                                        let b = RustTestBinary { target: t.to_string(), executable: path };
                                        bins.push(b);
                                        proof {
                                            assert(binary_views(bins@) =~= found.push((t@, b.executable@)));
                                        }
                                    },
                                }
                            },
                        }
                    }
                } else if str_equal(reason, "build-finished") {
                    let ok = match value_get(v, "success") {
                        Some(JsonValue::Bool(s)) => *s,
                        _ => false,
                    };
                    if !ok {
                        proof {
                            lemma_binaries_stop(ls, all, root, (i + 1) as nat, ls.len() as nat);
                        }
                        return Err(inventory_error("Cargo reported an unsuccessful build".to_string()));
                    }
                } else if !(str_equal(reason, "compiler-message") || str_equal(reason, "build-script-executed")
                    || str_equal(reason, "artifact")) {
                    proof {
                        lemma_binaries_stop(ls, all, root, (i + 1) as nat, ls.len() as nat);
                    }
                    return Err(inventory_error(crate::aeneas::framed("unsupported Cargo JSON reason `", reason, "`")));
                }
            },
        }
        i = i + 1;
    }
    let ghost found = binary_views(bins@);
    proof {
        assert(found.map_values(|b: (Seq<char>, Seq<char>)| b.0) =~= targets(bins@));
    }
    Ok(order_by_target(&bins))
}


/// A Cargo message whose `profile.test` is `true`.
pub open spec fn built_for_tests(v: JsonValue) -> bool {
    json_get(v, "profile"@) matches Some(p) && json_get(p, "test"@) == Some(JsonValue::Bool(true))
}

/// A compiler artifact that was not built with the test profile (its
/// `profile.test` is `false` or missing) names no executable to resolve
/// and adds no test binary; one built with it, naming its executable and a
/// safely named target, is an executable to resolve.
pub proof fn lemma_only_test_profile_artifacts_are_test_binaries(
    v: JsonValue,
    i: int,
    resolution: Result<(String, bool), AdapterError>,
    root: Seq<char>,
    found: Seq<(Seq<char>, Seq<char>)>,
)
    ensures
        !(json_get(v, "profile"@) matches Some(p) && json_get(p, "test"@) == Some(JsonValue::Bool(true)))
            ==> test_executable(Some(Ok(v))) is None,
        !(json_get(v, "profile"@) matches Some(p) && json_get(p, "test"@) == Some(JsonValue::Bool(true))) && get_str(
            v,
            "reason"@,
        ) == Some("compiler-artifact"@) ==> line_step(Some(Ok(v)), i, resolution, root, found) == Ok::<
            Seq<(Seq<char>, Seq<char>)>,
            CargoFault,
        >(found),
        (json_get(v, "profile"@) matches Some(p) && json_get(p, "test"@) == Some(JsonValue::Bool(true))) && get_str(
            v,
            "reason"@,
        ) == Some("compiler-artifact"@) && get_str(v, "executable"@) is Some && target_name(v) is Some
            && is_safe_atom(target_name(v)->0) ==> test_executable(Some(Ok(v))) == get_str(v, "executable"@),
{
}

/// Every executable the messages name for resolution comes from a message
/// built with the test profile that names that executable.
pub proof fn lemma_test_executables_come_from_test_profile(
    lines: Seq<Option<Result<JsonValue, String>>>,
    n: nat,
    k: int,
)
    requires
        0 <= k < test_executables(lines, n).len(),
    ensures
        exists|j: int|
            0 <= j < n && j < lines.len() && (#[trigger] lines[j] matches Some(Ok(v)) && built_for_tests(v) && get_str(
                v,
                "executable"@,
            ) == Some(test_executables(lines, n)[k])),
    decreases n,
{
    if n == 0 || n > lines.len() {
    } else {
        let rest = test_executables(lines, (n - 1) as nat);
        match test_executable(lines[n - 1]) {
            Some(e) => {
                if k == rest.len() {
                    assert(lines[n - 1] matches Some(Ok(v)) && built_for_tests(v) && get_str(v, "executable"@) == Some(e));
                } else {
                    lemma_test_executables_come_from_test_profile(lines, (n - 1) as nat, k);
                    let j = choose|j: int|
                        0 <= j < n - 1 && j < lines.len() && (#[trigger] lines[j] matches Some(Ok(v)) && built_for_tests(v)
                            && get_str(v, "executable"@) == Some(rest[k]));
                    assert(test_executables(lines, n)[k] == rest[k]);
                }
            },
            None => {
                lemma_test_executables_come_from_test_profile(lines, (n - 1) as nat, k);
            },
        }
    }
}

} // verus!
