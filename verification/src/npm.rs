//! The JSON configuration a Node unit may rely on: `package.json`, a
//! version-3 `package-lock.json` with integrity-pinned registry packages,
//! and a flat, strict `tsconfig.json`.
//! Object members are read in the order the parsed objects hold them.
use vstd::prelude::*;
use crate::json::JsonValue;
use crate::node::{
    forbidden_dependency, is_forbidden_dependency, is_node_path, validate_relative_path, NodeError,
};
use crate::inventory::{has_duplicates, sorted_set, MAX_INVENTORY};
use crate::text::{chars_of, split, split_of, starts_with, str_equal, string_views, views};
use vstd::string::*;

verus! {

/// The members of an object value.
pub open spec fn members(v: JsonValue) -> Option<Seq<(String, JsonValue)>> {
    match v {
        JsonValue::Object(ms) => Some(ms@),
        _ => None,
    }
}

/// The index of the first member at or after `from` named `key`, or the
/// number of members.
pub open spec fn key_index(ms: Seq<(String, JsonValue)>, key: Seq<char>, from: int) -> int
    decreases ms.len() - from,
{
    if from < 0 || from >= ms.len() {
        ms.len() as int
    } else if ms[from].0@ == key {
        from
    } else {
        key_index(ms, key, from + 1)
    }
}

/// The value of the member named `key`.
pub open spec fn member(ms: Seq<(String, JsonValue)>, key: Seq<char>) -> Option<JsonValue> {
    if key_index(ms, key, 0) < ms.len() {
        Some(ms[key_index(ms, key, 0)].1)
    } else {
        None
    }
}

/// The string value of the member named `key`.
pub open spec fn member_str(ms: Seq<(String, JsonValue)>, key: Seq<char>) -> Option<Seq<char>> {
    match member(ms, key) {
        Some(v) => v.spec_as_str(),
        None => None,
    }
}

/// Whether the member named `key` is the boolean `true`.
pub open spec fn member_true(ms: Seq<(String, JsonValue)>, key: Seq<char>) -> bool {
    member(ms, key) == Some(JsonValue::Bool(true))
}

pub fn find_key(ms: &Vec<(String, JsonValue)>, key: &str) -> (r: Option<usize>)
    ensures
        match r {
            Some(i) => i < ms@.len() && key_index(ms@, key@, 0) == i,
            None => key_index(ms@, key@, 0) == ms@.len(),
        },
{
    let mut i: usize = 0;
    while i < ms.len()
        invariant
            i <= ms@.len(),
            key_index(ms@, key@, 0) == key_index(ms@, key@, i as int),
        decreases ms@.len() - i,
    {
        if str_equal(ms[i].0.as_str(), key) {
            return Some(i);
        }
        i = i + 1;
    }
    None
}

pub fn get<'a>(ms: &'a Vec<(String, JsonValue)>, key: &str) -> (r: Option<&'a JsonValue>)
    ensures
        match r {
            Some(v) => member(ms@, key@) == Some(*v),
            None => member(ms@, key@) is None,
        },
{
    match find_key(ms, key) {
        Some(i) => Some(&ms[i].1),
        None => None,
    }
}

/// The first fault among the first `n` dependencies of a section.
pub open spec fn dependencies_fault(deps: Seq<(String, JsonValue)>, n: nat, section: Seq<char>) -> Option<Seq<char>>
    decreases n,
{
    if n == 0 || n > deps.len() {
        None
    } else {
        match dependencies_fault(deps, (n - 1) as nat, section) {
            Some(m) => Some(m),
            None => {
                let name = deps[n - 1].0@;
                match deps[n - 1].1.spec_as_str() {
                    None => Some(section + "."@ + name + " must be a string dependency specification"@),
                    Some(spec) => if is_forbidden_dependency(spec) {
                        Some(section + "."@ + name + " uses unsupported dependency `"@ + spec + "`"@)
                    } else {
                        None
                    },
                }
            },
        }
    }
}

/// The fault of one dependency section of `package.json`, if any.
pub open spec fn section_fault(package: Seq<(String, JsonValue)>, section: Seq<char>) -> Option<Seq<char>> {
    match member(package, section) {
        Some(JsonValue::Object(deps)) => dependencies_fault(deps@, deps@.len(), section),
        _ => None,
    }
}

/// What is wrong with `package.json`, if anything.
pub open spec fn package_fault(package: JsonValue) -> Option<Seq<char>> {
    match members(package) {
        None => Some("package.json must be a JSON object"@),
        Some(ms) => if member(ms, "workspaces"@) is Some {
            Some("npm workspaces are not admitted in this version"@)
        } else if member_str(ms, "packageManager"@) matches Some(m) && !starts_with(m, "npm@"@) {
            Some("package manager `"@ + member_str(ms, "packageManager"@)->0 + "` is not npm"@)
        } else if section_fault(ms, "dependencies"@) is Some {
            section_fault(ms, "dependencies"@)
        } else if section_fault(ms, "devDependencies"@) is Some {
            section_fault(ms, "devDependencies"@)
        } else if section_fault(ms, "optionalDependencies"@) is Some {
            section_fault(ms, "optionalDependencies"@)
        } else {
            section_fault(ms, "peerDependencies"@)
        },
    }
}

/// Whether a bundled package sits inside a parent package entry whose
/// integrity is pinned.
pub open spec fn bundled_and_bound(path: Seq<char>, entry: Seq<(String, JsonValue)>, packages: Seq<(String, JsonValue)>) -> bool {
    &&& member_true(entry, "inBundle"@)
    &&& exists|i: int|
        0 <= i < packages.len() && (#[trigger] packages[i]).0@.len() > 0 && starts_with(
            path,
            packages[i].0@ + "/node_modules/"@,
        ) && (members(packages[i].1) matches Some(parent) && member_str(parent, "integrity"@) is Some)
}

/// What is wrong with one lockfile package entry, if anything: an unsafe
/// path faults with the path, every other rule with a message.
pub open spec fn entry_fault(path: Seq<char>, entry: JsonValue, packages: Seq<(String, JsonValue)>) -> Option<
    Result<Seq<char>, Seq<char>>,
> {
    if path.len() == 0 {
        None
    } else if !is_node_path(path) {
        Some(Err(path))
    } else if !split(path, "/"@).contains("node_modules"@) {
        Some(Ok("lockfile package entry `"@ + path + "` is a workspace or local package"@))
    } else {
        match members(entry) {
            None => Some(Ok("lockfile package entry `"@ + path + "` is not an object"@)),
            Some(e) => if member_true(e, "link"@) {
                Some(Ok("lockfile package entry `"@ + path + "` is a link"@))
            } else if member_str(e, "integrity"@) is None && !bundled_and_bound(path, e, packages) {
                Some(Ok("lockfile package entry `"@ + path + "` omits integrity"@))
            } else if member_str(e, "resolved"@) matches Some(r) && is_forbidden_dependency(r) {
                Some(
                    Ok(
                        "lockfile package entry `"@ + path + "` resolves through unsupported `"@
                            + member_str(e, "resolved"@)->0 + "`"@,
                    ),
                )
            } else {
                None
            },
        }
    }
}

/// The first fault among the first `n` lockfile package entries.
pub open spec fn entries_fault(packages: Seq<(String, JsonValue)>, n: nat) -> Option<Result<Seq<char>, Seq<char>>>
    decreases n,
{
    if n == 0 || n > packages.len() {
        None
    } else {
        match entries_fault(packages, (n - 1) as nat) {
            Some(f) => Some(f),
            None => entry_fault(packages[n - 1].0@, packages[n - 1].1, packages),
        }
    }
}

/// What is wrong with `package-lock.json`, if anything.
pub open spec fn lock_fault(lock: JsonValue) -> Option<Result<Seq<char>, Seq<char>>> {
    match members(lock) {
        None => Some(Ok("package-lock.json must be a JSON object"@)),
        Some(ms) => match member(ms, "lockfileVersion"@) {
            None => Some(Ok("package-lock.json omits lockfileVersion"@)),
            Some(v) => match v.spec_as_u64() {
                None => Some(Ok("package-lock.json omits lockfileVersion"@)),
                Some(version) => if version < 3 {
                    Some(
                        Ok(
                            "package-lock lockfileVersion "@ + crate::text::decimal(version as nat)
                                + " is below 3"@,
                        ),
                    )
                } else {
                    match member(ms, "packages"@) {
                        Some(JsonValue::Object(packages)) => if member(packages@, ""@) is None {
                            Some(Ok("package-lock.json omits the root package entry"@))
                        } else {
                            entries_fault(packages@, packages@.len())
                        },
                        _ => Some(Ok("package-lock.json omits the packages map"@)),
                    }
                },
            },
        },
    }
}

/// The error a metadata fault becomes.
pub open spec fn is_metadata_fault(e: NodeError, f: Result<Seq<char>, Seq<char>>) -> bool {
    match f {
        Ok(m) => e matches NodeError::Unsupported(x) && x@ == m,
        Err(p) => e matches NodeError::UnsafePath(x) && x@ == p,
    }
}

fn unsupported(message: String) -> (e: NodeError)
    ensures
        e matches NodeError::Unsupported(x) && x@ == message@,
{
    NodeError::Unsupported(message)
}

proof fn lemma_dependencies_fault_extends(deps: Seq<(String, JsonValue)>, section: Seq<char>, m: nat, n: nat)
    requires
        m <= n <= deps.len(),
    ensures
        dependencies_fault(deps, m, section) is Some ==> dependencies_fault(deps, n, section)
            == dependencies_fault(deps, m, section),
    decreases n - m,
{
    if m < n {
        lemma_dependencies_fault_extends(deps, section, m, (n - 1) as nat);
    }
}

proof fn lemma_entries_fault_extends(packages: Seq<(String, JsonValue)>, m: nat, n: nat)
    requires
        m <= n <= packages.len(),
    ensures
        entries_fault(packages, m) is Some ==> entries_fault(packages, n) == entries_fault(packages, m),
    decreases n - m,
{
    if m < n {
        lemma_entries_fault_extends(packages, m, (n - 1) as nat);
    }
}

#[verifier::loop_isolation(false)]
fn check_section(package: &Vec<(String, JsonValue)>, section: &str) -> (r: Result<(), NodeError>)
    ensures
        match section_fault(package@, section@) {
            None => r is Ok,
            Some(m) => (r matches Err(NodeError::Unsupported(x)) && x@ == m),
        },
{
    let deps = match get(package, section) {
        Some(JsonValue::Object(deps)) => deps,
        _ => {
            return Ok(());
        },
    };
    let mut i: usize = 0;
    while i < deps.len()
        invariant
            i <= deps@.len(),
            dependencies_fault(deps@, i as nat, section@) is None,
        decreases deps@.len() - i,
    {
        proof {
            lemma_dependencies_fault_extends(deps@, section@, (i + 1) as nat, deps@.len());
        }
        let (name, value) = &deps[i];
        match value.as_str() {
            None => {
                let mut m = section.to_owned();
                m.append(".");
                m.append(name.as_str());
                m.append(" must be a string dependency specification");
                return Err(unsupported(m));
            },
            Some(spec) => {
                if forbidden_dependency(spec) {
                    let mut m = section.to_owned();
                    m.append(".");
                    m.append(name.as_str());
                    m.append(" uses unsupported dependency `");
                    m.append(spec);
                    m.append("`");
                    return Err(unsupported(m));
                }
            },
        }
        i = i + 1;
    }
    Ok(())
}

/// Checks `package.json`: an object, no workspaces, npm as the package
/// manager if one is named, and every dependency a plain registry
/// specification.
pub fn validate_package_json(package: &JsonValue) -> (r: Result<(), NodeError>)
    ensures
        match package_fault(*package) {
            None => r is Ok,
            Some(m) => (r matches Err(NodeError::Unsupported(x)) && x@ == m),
        },
{
    let ms = match package {
        JsonValue::Object(ms) => ms,
        _ => {
            return Err(unsupported("package.json must be a JSON object".to_owned()));
        },
    };
    if get(ms, "workspaces").is_some() {
        return Err(unsupported("npm workspaces are not admitted in this version".to_owned()));
    }
    match get(ms, "packageManager") {
        Some(v) => match v.as_str() {
            Some(manager) => {
                let m = chars_of(manager);
                let npm = chars_of("npm@");
                if !crate::text::matches_at(m.as_slice(), npm.as_slice(), 0) {
                    let mut message = "package manager `".to_owned();
                    message.append(manager);
                    message.append("` is not npm");
                    return Err(unsupported(message));
                }
            },
            None => {},
        },
        None => {},
    }
    check_section(ms, "dependencies")?;
    check_section(ms, "devDependencies")?;
    check_section(ms, "optionalDependencies")?;
    check_section(ms, "peerDependencies")
}

/// Whether a bundled package sits inside a parent entry whose integrity is
/// pinned.
#[verifier::loop_isolation(false)]
pub fn bundled_entry_is_bound(path: &str, entry: &Vec<(String, JsonValue)>, packages: &Vec<(String, JsonValue)>) -> (b: bool)
    ensures
        b == bundled_and_bound(path@, entry@, packages@),
{
    let in_bundle = match get(entry, "inBundle") {
        Some(JsonValue::Bool(true)) => true,
        _ => false,
    };
    if !in_bundle {
        return false;
    }
    let p = chars_of(path);
    let mut i: usize = 0;
    while i < packages.len()
        invariant
            i <= packages@.len(),
            p@ == path@,
            forall|k: int|
                0 <= k < i ==> !((#[trigger] packages@[k]).0@.len() > 0 && starts_with(
                    path@,
                    packages@[k].0@ + "/node_modules/"@,
                ) && (members(packages@[k].1) matches Some(parent) && member_str(parent, "integrity"@) is Some)),
        decreases packages@.len() - i,
    {
        let (parent_path, parent) = &packages[i];
        let mut prefix = parent_path.as_str().to_owned();
        prefix.append("/node_modules/");
        let pre = chars_of(prefix.as_str());
        let nonempty = chars_of(parent_path.as_str()).len() > 0;
        let inside = crate::text::matches_at(p.as_slice(), pre.as_slice(), 0);
        let pinned = match parent {
            JsonValue::Object(pm) => match get(pm, "integrity") {
                Some(v) => v.as_str().is_some(),
                None => false,
            },
            _ => false,
        };
        if nonempty && inside && pinned {
            proof {
                assert((packages@[i as int]).0@.len() > 0 && starts_with(
                    path@,
                    packages@[i as int].0@ + "/node_modules/"@,
                ) && (members(packages@[i as int].1) matches Some(parent) && member_str(
                    parent,
                    "integrity"@,
                ) is Some));
            }
            return true;
        }
        i = i + 1;
    }
    false
}

fn has_node_modules(path: &str) -> (b: bool)
    ensures
        b == split(path@, "/"@).contains("node_modules"@),
{
    let p = chars_of(path);
    let slash = chars_of("/");
    let nm = chars_of("node_modules");
    proof {
        reveal_strlit("/");
    }
    let parts = split_of(p.as_slice(), slash.as_slice());
    crate::inventory::contains_chars(&parts, nm.as_slice())
}

/// Checks `package-lock.json`: an object of lockfile version 3 or later
/// whose packages map has a root entry, and where every other entry is a
/// safe `node_modules` path to an integrity-pinned (or bundled into a
/// pinned parent), unlinked package not resolved through a local, Git or
/// plain HTTP source.
#[verifier::loop_isolation(false)]
pub fn validate_package_lock(lock: &JsonValue) -> (r: Result<(), NodeError>)
    ensures
        match lock_fault(*lock) {
            None => r is Ok,
            Some(f) => (r matches Err(e) && is_metadata_fault(e, f)),
        },
{
    let ms = match lock {
        JsonValue::Object(ms) => ms,
        _ => {
            return Err(unsupported("package-lock.json must be a JSON object".to_owned()));
        },
    };
    let version = match get(ms, "lockfileVersion") {
        Some(v) => match v.as_u64() {
            Some(n) => n,
            None => {
                return Err(unsupported("package-lock.json omits lockfileVersion".to_owned()));
            },
        },
        None => {
            return Err(unsupported("package-lock.json omits lockfileVersion".to_owned()));
        },
    };
    if version < 3 {
        let mut m = "package-lock lockfileVersion ".to_owned();
        crate::text::push_decimal(&mut m, version);
        m.append(" is below 3");
        return Err(unsupported(m));
    }
    let packages = match get(ms, "packages") {
        Some(JsonValue::Object(packages)) => packages,
        _ => {
            return Err(unsupported("package-lock.json omits the packages map".to_owned()));
        },
    };
    if get(packages, "").is_none() {
        return Err(unsupported("package-lock.json omits the root package entry".to_owned()));
    }
    let mut i: usize = 0;
    while i < packages.len()
        invariant
            i <= packages@.len(),
            entries_fault(packages@, i as nat) is None,
        decreases packages@.len() - i,
    {
        proof {
            lemma_entries_fault_extends(packages@, (i + 1) as nat, packages@.len());
        }
        let (path, entry) = &packages[i];
        if chars_of(path.as_str()).len() > 0 {
            validate_relative_path(path.as_str())?;
            if !has_node_modules(path.as_str()) {
                let mut m = "lockfile package entry `".to_owned();
                m.append(path.as_str());
                m.append("` is a workspace or local package");
                return Err(unsupported(m));
            }
            let e = match entry {
                JsonValue::Object(e) => e,
                _ => {
                    let mut m = "lockfile package entry `".to_owned();
                    m.append(path.as_str());
                    m.append("` is not an object");
                    return Err(unsupported(m));
                },
            };
            let linked = match get(e, "link") {
                Some(JsonValue::Bool(true)) => true,
                _ => false,
            };
            if linked {
                let mut m = "lockfile package entry `".to_owned();
                m.append(path.as_str());
                m.append("` is a link");
                return Err(unsupported(m));
            }
            let integrity = match get(e, "integrity") {
                Some(v) => v.as_str().is_some(),
                None => false,
            };
            if !integrity && !bundled_entry_is_bound(path.as_str(), e, packages) {
                let mut m = "lockfile package entry `".to_owned();
                m.append(path.as_str());
                m.append("` omits integrity");
                return Err(unsupported(m));
            }
            match get(e, "resolved") {
                Some(v) => match v.as_str() {
                    Some(resolved) => {
                        if forbidden_dependency(resolved) {
                            let mut m = "lockfile package entry `".to_owned();
                            m.append(path.as_str());
                            m.append("` resolves through unsupported `");
                            m.append(resolved);
                            m.append("`");
                            return Err(unsupported(m));
                        }
                    },
                    None => {},
                },
                None => {},
            }
        }
        i = i + 1;
    }
    Ok(())
}

/// Checks the project's npm metadata: `package.json`, then
/// `package-lock.json`.
pub fn validate_node_metadata(package: &JsonValue, lock: &JsonValue) -> (r: Result<(), NodeError>)
    ensures
        match package_fault(*package) {
            Some(m) => (r matches Err(NodeError::Unsupported(x)) && x@ == m),
            None => match lock_fault(*lock) {
                None => r is Ok,
                Some(f) => (r matches Err(e) && is_metadata_fault(e, f)),
            },
        },
{
    validate_package_json(package)?;
    validate_package_lock(lock)
}

/// Why a `tsconfig.json`, as parsed (or the parser's error text), is not a
/// flat configuration with `compilerOptions.strict` set to `true`.
pub open spec fn tsconfig_fault(parsed: Result<JsonValue, String>) -> Option<Seq<char>> {
    match parsed {
        Err(e) => Some("tsconfig must be plain JSON without comments or trailing commas: "@ + e@),
        Ok(v) => match members(v) {
            None => Some("tsconfig must contain a JSON object"@),
            Some(ms) => if member(ms, "extends"@) is Some {
                Some("tsconfig extends chains are unsupported; flatten the configuration"@)
            } else {
                match member(ms, "compilerOptions"@) {
                    Some(JsonValue::Object(options)) => if member_true(options@, "strict"@) {
                        None
                    } else {
                        Some("tsconfig compilerOptions.strict must be true"@)
                    },
                    _ => Some("tsconfig compilerOptions.strict must be true"@),
                }
            },
        },
    }
}

/// Accepts a `tsconfig.json` that is plain JSON, a flat object, and strict;
/// `parsed` is the parsed file or the parser's error text.
pub fn validate_tsc_configuration(parsed: &Result<JsonValue, String>) -> (r: Result<(), NodeError>)
    ensures
        match tsconfig_fault(*parsed) {
            None => r is Ok,
            Some(m) => r matches Err(NodeError::Unsupported(x)) && x@ == m,
        },
{
    let value = match parsed {
        Err(e) => {
            return Err(
                NodeError::Unsupported(
                    crate::aeneas::prefixed(
                        "tsconfig must be plain JSON without comments or trailing commas: ",
                        e.as_str(),
                    ),
                ),
            );
        },
        Ok(v) => v,
    };
    let ms = match value {
        JsonValue::Object(ms) => ms,
        _ => {
            return Err(NodeError::Unsupported("tsconfig must contain a JSON object".to_owned()));
        },
    };
    if get(ms, "extends").is_some() {
        return Err(
            NodeError::Unsupported("tsconfig extends chains are unsupported; flatten the configuration".to_owned()),
        );
    }
    let strict = match get(ms, "compilerOptions") {
        Some(JsonValue::Object(options)) => match get(options, "strict") {
            Some(JsonValue::Bool(b)) => *b,
            _ => false,
        },
        _ => false,
    };
    if !strict {
        return Err(NodeError::Unsupported("tsconfig compilerOptions.strict must be true".to_owned()));
    }
    Ok(())
}

/// A hexadecimal digit in either case.
pub open spec fn is_ascii_hex(c: char) -> bool {
    ('0' <= c && c <= '9') || ('a' <= c && c <= 'f') || ('A' <= c && c <= 'F')
}

/// An npm integrity string: `sha512-` and more than 16 bytes in all.
pub open spec fn is_integrity(s: Seq<char>) -> bool {
    starts_with(s, "sha512-"@) && vstd::utf8::encode_utf8(s).len() > 16
}

/// An npm shasum: 40 hexadecimal digits.
pub open spec fn is_shasum(s: Seq<char>) -> bool {
    s.len() == 40 && forall|i: int| 0 <= i < s.len() ==> is_ascii_hex(#[trigger] s[i])
}

/// A failure of an `npm pack` report, as plain values.
pub enum PackFault {
    Unit(Seq<char>),
    Inventory(Seq<char>),
    UnsafePath(Seq<char>),
}

/// The error `e` is the fault `f`.
pub open spec fn is_pack_fault(e: NodeError, f: PackFault) -> bool {
    match f {
        PackFault::Unit(m) => e matches NodeError::Unit(x) && x@ == m,
        PackFault::Inventory(m) => e matches NodeError::Inventory(x) && x@ == m,
        PackFault::UnsafePath(m) => e matches NodeError::UnsafePath(x) && x@ == m,
    }
}

/// The paths of the first `n` file entries of a pack report, each a safe
/// repository path.
pub open spec fn pack_paths(files: Seq<JsonValue>, n: nat) -> Result<Seq<Seq<char>>, PackFault>
    decreases n,
{
    if n == 0 || n > files.len() {
        Ok(Seq::empty())
    } else {
        match pack_paths(files, (n - 1) as nat) {
            Err(f) => Err(f),
            Ok(s) => match members(files[n - 1]) {
                Some(ms) => match member_str(ms, "path"@) {
                    Some(p) => if is_node_path(p) {
                        Ok(s.push(p))
                    } else {
                        Err(PackFault::UnsafePath(p))
                    },
                    None => Err(PackFault::Inventory("npm pack file omitted path"@)),
                },
                None => Err(PackFault::Inventory("npm pack file omitted path"@)),
            },
        }
    }
}

/// What an `npm pack --json` run reported: the tarball's integrity and its
/// members in name order, or why the report cannot be accepted.
pub open spec fn pack_outcome(
    truncated: bool,
    stderr_empty: bool,
    parsed: Result<JsonValue, String>,
    artifact_name: Seq<char>,
    source_date_epoch: u64,
) -> Result<(Seq<char>, Seq<Seq<char>>), PackFault> {
    if source_date_epoch != 0 {
        Err(PackFault::Unit("npm source_date_epoch must be zero"@))
    } else if truncated || !stderr_empty {
        Err(PackFault::Inventory("npm pack report was truncated or wrote to stderr"@))
    } else {
        match parsed {
            Err(e) => Err(PackFault::Inventory("invalid npm pack JSON: "@ + e@)),
            Ok(v) => match v.spec_as_array() {
                None => Err(PackFault::Inventory("npm pack report must be a JSON array"@)),
                Some(reports) => if reports.len() != 1 {
                    Err(
                        PackFault::Inventory(
                            "npm pack reported "@ + crate::text::decimal(reports.len()) + " tarballs, expected one"@,
                        ),
                    )
                } else {
                    match members(reports[0]) {
                        None => Err(PackFault::Inventory("npm pack report is not an object"@)),
                        Some(ms) => if member_str(ms, "filename"@) != Some(artifact_name) {
                            Err(PackFault::Inventory("npm pack filename does not match artifact_name"@))
                        } else {
                            match member_str(ms, "integrity"@) {
                                Some(integrity) if is_integrity(integrity) => if !(member_str(ms, "shasum"@) matches Some(
                                    sum,
                                ) && is_shasum(sum)) {
                                    Err(PackFault::Inventory("npm pack omitted shasum"@))
                                } else {
                                    match member(ms, "files"@) {
                                        Some(JsonValue::Array(files)) => match pack_paths(files@, files@.len()) {
                                            Err(f) => Err(f),
                                            Ok(paths) => if paths.len() == 0 || paths.len() > MAX_INVENTORY
                                                || has_duplicates(paths) {
                                                Err(PackFault::Inventory("npm pack files must be a nonempty bounded set"@))
                                            } else {
                                                Ok((integrity, sorted_set(paths)))
                                            },
                                        },
                                        _ => Err(PackFault::Inventory("npm pack omitted files inventory"@)),
                                    }
                                },
                                _ => Err(PackFault::Inventory("npm pack omitted integrity"@)),
                            }
                        },
                    }
                },
            },
        }
    }
}

fn pack_error(message: &str) -> (e: NodeError)
    ensures
        e matches NodeError::Inventory(m) && m@ == message@,
{
    NodeError::Inventory(message.to_owned())
}

fn integrity_ok(value: &str) -> (b: bool)
    ensures
        b == is_integrity(value@),
{
    let c = chars_of(value);
    let prefix = chars_of("sha512-");
    proof {
        assert(value.spec_bytes() == vstd::utf8::encode_utf8(value@));
    }
    crate::text::matches_at(c.as_slice(), prefix.as_slice(), 0) && value.as_bytes().len() > 16
}

fn shasum_ok(value: &str) -> (b: bool)
    ensures
        b == is_shasum(value@),
{
    let c = chars_of(value);
    if c.len() != 40 {
        return false;
    }
    let mut i: usize = 0;
    while i < c.len()
        invariant
            c@ == value@,
            i <= c@.len(),
            forall|j: int| 0 <= j < i ==> is_ascii_hex(#[trigger] c@[j]),
        decreases c@.len() - i,
    {
        let ch = c[i];
        if !(('0' <= ch && ch <= '9') || ('a' <= ch && ch <= 'f') || ('A' <= ch && ch <= 'F')) {
            return false;
        }
        i = i + 1;
    }
    true
}

proof fn lemma_pack_paths_stop(files: Seq<JsonValue>, m: nat, n: nat)
    requires
        m <= n <= files.len(),
        pack_paths(files, m) is Err,
    ensures
        pack_paths(files, n) == pack_paths(files, m),
    decreases n - m,
{
    if m < n {
        lemma_pack_paths_stop(files, m, (n - 1) as nat);
    }
}

fn collect_pack_paths(files: &Vec<JsonValue>) -> (r: Result<Vec<Vec<char>>, NodeError>)
    ensures
        match pack_paths(files@, files@.len()) {
            Err(f) => r matches Err(e) && is_pack_fault(e, f),
            Ok(paths) => r matches Ok(out) && views(out@) == paths,
        },
{
    let mut out: Vec<Vec<char>> = Vec::new();
    proof {
        assert(views(out@) =~= Seq::<Seq<char>>::empty());
    }
    let mut i: usize = 0;
    while i < files.len()
        invariant
            i <= files@.len(),
            pack_paths(files@, i as nat) == Ok::<Seq<Seq<char>>, PackFault>(views(out@)),
        decreases files@.len() - i,
    {
        let path = match &files[i] {
            JsonValue::Object(ms) => match get(ms, "path") {
                Some(v) => v.as_str(),
                None => None,
            },
            _ => None,
        };
        match path {
            None => {
                proof {
                    lemma_pack_paths_stop(files@, (i + 1) as nat, files@.len());
                }
                return Err(pack_error("npm pack file omitted path"));
            },
            Some(p) => {
                if let Err(e) = validate_relative_path(p) {
                    proof {
                        lemma_pack_paths_stop(files@, (i + 1) as nat, files@.len());
                    }
                    return Err(e);
                }
                let ghost before = views(out@);
                out.push(chars_of(p));
                proof {
                    assert(views(out@) =~= before.push(p@));
                }
            },
        }
        i = i + 1;
    }
    Ok(out)
}

/// Reads the report of an `npm pack --json` run of the tarball
/// `artifact_name`: `parsed` is its standard output as parsed (or the
/// parser's error text). Gives the tarball's integrity and its reported
/// members in name order.
pub fn pack_report(
    output: &crate::process::ProcessOutput,
    parsed: &Result<JsonValue, String>,
    artifact_name: &str,
    source_date_epoch: u64,
) -> (r: Result<(String, Vec<String>), NodeError>)
    ensures
        match pack_outcome(output.truncated, output.stderr@.len() == 0, *parsed, artifact_name@, source_date_epoch) {
            Err(f) => r matches Err(e) && is_pack_fault(e, f),
            Ok((integrity, paths)) => r matches Ok((i, members)) && i@ == integrity && string_views(members@)
                == paths,
        },
{
    if source_date_epoch != 0 {
        return Err(NodeError::Unit("npm source_date_epoch must be zero".to_owned()));
    }
    if output.truncated || output.stderr.len() > 0 {
        return Err(pack_error("npm pack report was truncated or wrote to stderr"));
    }
    let value = match parsed {
        Err(e) => {
            return Err(NodeError::Inventory(crate::aeneas::prefixed("invalid npm pack JSON: ", e.as_str())));
        },
        Ok(v) => v,
    };
    let reports = match value.as_array() {
        Some(r) => r,
        None => {
            return Err(pack_error("npm pack report must be a JSON array"));
        },
    };
    if reports.len() != 1 {
        let mut m = "npm pack reported ".to_owned();
        crate::text::push_decimal(&mut m, reports.len() as u64);
        m.append(" tarballs, expected one");
        return Err(NodeError::Inventory(m));
    }
    let ms = match &reports[0] {
        JsonValue::Object(ms) => ms,
        _ => {
            return Err(pack_error("npm pack report is not an object"));
        },
    };
    let filename = match get(ms, "filename") {
        Some(v) => v.as_str(),
        None => None,
    };
    let named = match filename {
        Some(f) => str_equal(f, artifact_name),
        None => false,
    };
    if !named {
        return Err(pack_error("npm pack filename does not match artifact_name"));
    }
    let integrity = match get(ms, "integrity") {
        Some(v) => match v.as_str() {
            Some(i) => if integrity_ok(i) {
                i
            } else {
                return Err(pack_error("npm pack omitted integrity"));
            },
            None => {
                return Err(pack_error("npm pack omitted integrity"));
            },
        },
        None => {
            return Err(pack_error("npm pack omitted integrity"));
        },
    };
    let sum = match get(ms, "shasum") {
        Some(v) => v.as_str(),
        None => None,
    };
    let summed = match sum {
        Some(s) => shasum_ok(s),
        None => false,
    };
    if !summed {
        return Err(pack_error("npm pack omitted shasum"));
    }
    let files = match get(ms, "files") {
        Some(JsonValue::Array(files)) => files,
        _ => {
            return Err(pack_error("npm pack omitted files inventory"));
        },
    };
    let paths = collect_pack_paths(files)?;
    if paths.len() == 0 {
        return Err(pack_error("npm pack files must be a nonempty bounded set"));
    }
    let members = match crate::inventory::sorted_unique_chars(&paths) {
        Ok(m) => m,
        Err(_) => {
            return Err(pack_error("npm pack files must be a nonempty bounded set"));
        },
    };
    let mut names: Vec<String> = Vec::new();
    let mut k: usize = 0;
    while k < members.len()
        invariant
            k <= members@.len(),
            string_views(names@) == views(members@).take(k as int),
        decreases members@.len() - k,
    {
        let ghost before = string_views(names@);
        names.push(crate::text::string_of(members[k].as_slice()));
        proof {
            assert(views(members@).take(k + 1) =~= views(members@).take(k as int).push(members@[k as int]@));
            assert(string_views(names@) =~= before.push(members@[k as int]@));
        }
        k = k + 1;
    }
    proof {
        assert(views(members@).take(members@.len() as int) =~= views(members@));
    }
    Ok((integrity.to_owned(), names))
}

/// Checks that the members found in the tarball are those npm reported.
pub fn compare_pack_members(extracted: &Vec<String>, reported: &Vec<String>) -> (r: Result<(), NodeError>)
    ensures
        string_views(extracted@) == string_views(reported@) ==> r is Ok,
        string_views(extracted@) != string_views(reported@) ==> (r matches Err(NodeError::Inventory(m)) && m@
            == "tar members "@ + crate::text::debug_strings(string_views(extracted@)) + " do not equal npm report "@
            + crate::text::debug_strings(string_views(reported@))),
{
    let a = crate::text::char_lists(extracted);
    let b = crate::text::char_lists(reported);
    if crate::inventory::lists_equal(&a, &b) {
        return Ok(());
    }
    let mut m = "tar members ".to_owned();
    m.append(crate::text::debug_list(extracted).as_str());
    m.append(" do not equal npm report ");
    m.append(crate::text::debug_list(reported).as_str());
    proof {
        reveal_strlit("tar members ");
        reveal_strlit(" do not equal npm report ");
    }
    Err(NodeError::Inventory(m))
}

} // verus!
