//! The Lean theorem adapter: its failure record and codes, its declaration
//! model, and the grammar of the names and paths that a unit registers.
use vstd::prelude::*;
use crate::aeneas::{framed, prefixed};
use crate::names::{all_chars_in, all_in, is_lower, is_upper, CharClass};
use crate::process::Diagnostic;
use crate::text::{chars_of, decimal, split, split_of, string_of, string_views, trim, views};

verus! {

pub const PROTOCOL: &'static str = "PB-LEAN-0001";

pub const CONFIGURATION: &'static str = "PB-LEAN-0002";

pub const TOOL: &'static str = "PB-LEAN-0003";

pub const AUDIT_OUTPUT: &'static str = "PB-LEAN-0004";

pub const INVENTORY: &'static str = "PB-LEAN-0005";

pub const DECLARATION: &'static str = "PB-LEAN-0006";

pub const AXIOM: &'static str = "PB-LEAN-0007";

pub const STATEMENT_DRIFT: &'static str = "PB-LEAN-0008";

pub const EXPR_WIRE: &'static str = "PB-LEAN-0009";

pub const PROVENANCE: &'static str = "PB-LEAN-0010";

pub const RESOURCE: &'static str = "PB-LEAN-0011";

pub const READ_ONLY: &'static str = "PB-LEAN-0012";

pub const ARTIFACT_BINDING: &'static str = "PB-LEAN-0013";

pub const LEAN_ADAPTER_UNIT_SCHEMA: &'static str = "proofbound-lean-adapter-unit/1";

pub const LEAN_AUDIT_SCHEMA: &'static str = "proofbound-lean-audit/1";

/// A protocol-safe failure: a stable code, a message, and optionally the
/// path concerned and a remediation.
#[derive(Clone, Debug, PartialEq, Eq)]
pub struct AdapterError {
    pub code: &'static str,
    pub message: String,
    pub path: Option<String>,
    pub remediation: Option<String>,
}

impl AdapterError {
    /// A failure with a code and message only.
    pub fn new(code: &'static str, message: &str) -> (e: AdapterError)
        ensures
            e.code == code,
            e.message@ == message@,
            e.path is None,
            e.remediation is None,
    {
        AdapterError { code, message: message.to_owned(), path: None, remediation: None }
    }

    /// The same failure, at `path`.
    pub fn at(self, path: &str) -> (e: AdapterError)
        ensures
            e.code == self.code,
            e.message == self.message,
            e.path matches Some(p) && p@ == path@,
            e.remediation == self.remediation,
    {
        AdapterError { path: Some(path.to_owned()), ..self }
    }

    /// The same failure, with a remediation.
    pub fn remediate(self, remediation: &str) -> (e: AdapterError)
        ensures
            e.code == self.code,
            e.message == self.message,
            e.path == self.path,
            e.remediation matches Some(r) && r@ == remediation@,
    {
        AdapterError { remediation: Some(remediation.to_owned()), ..self }
    }

    /// The protocol diagnostic, field for field.
    pub fn diagnostic(&self) -> (d: Diagnostic)
        ensures
            d.code@ == self.code@,
            d.message@ == self.message@,
            match (d.path, self.path) {
                (Some(a), Some(b)) => a@ == b@,
                (None, None) => true,
                _ => false,
            },
            match (d.remediation, self.remediation) {
                (Some(a), Some(b)) => a@ == b@,
                (None, None) => true,
                _ => false,
            },
    {
        Diagnostic {
            code: self.code.to_owned(),
            message: self.message.as_str().to_owned(),
            path: match &self.path {
                Some(p) => Some(p.as_str().to_owned()),
                None => None,
            },
            remediation: match &self.remediation {
                Some(r) => Some(r.as_str().to_owned()),
                None => None,
            },
        }
    }
}

/// The kind of a compiled Lean declaration.
#[derive(Clone, Copy, Debug, PartialEq, Eq, PartialOrd, Ord, Structural)]
pub enum DeclarationKind {
    Axiom,
    Definition,
    Theorem,
    Opaque,
    Quotient,
    Inductive,
    Constructor,
    Recursor,
}

/// A registered public claim and the exact compiled declaration behind it.
#[derive(Clone, Debug, PartialEq, Eq)]
pub struct ExpectedClaim {
    pub claim_id: String,
    pub declaration: String,
    pub declaration_kind: DeclarationKind,
    pub statement_sha256: Option<String>,
    pub foundational_axioms: Vec<String>,
    /// Project axioms and the assumption each is registered as, in axiom
    /// order.
    pub project_axioms: Vec<(String, String)>,
}

/// A declaration the audit deliberately leaves unattributed, with why.
#[derive(Clone, Debug, PartialEq, Eq)]
pub struct AuditExemption {
    pub declaration: String,
    pub module: String,
    pub reason: String,
}

/// `message` with the error code `code`.
pub open spec fn failure(e: AdapterError, code: &'static str, message: Seq<char>) -> bool {
    e.code == code && e.message@ == message && e.path is None && e.remediation is None
}

/// A declaration or module name: not blank, at most 4096 bytes, no NUL.
pub open spec fn is_name(s: Seq<char>) -> bool {
    &&& crate::text::trim(s).len() > 0
    &&& vstd::utf8::encode_utf8(s).len() <= 4096
    &&& forall|i: int| 0 <= i < s.len() ==> #[trigger] s[i] != '\0'
}

/// Whether `value` holds nothing but whitespace.
pub fn is_blank(value: &str) -> (b: bool)
    ensures
        b == (crate::text::trim(value@).len() == 0),
{
    let s = chars_of(value);
    let k = crate::text::trim_start_len(s.as_slice());
    let mut rest: Vec<char> = Vec::new();
    crate::text::extend_range(&mut rest, s.as_slice(), k, s.len());
    let n = crate::text::trim_end_len(rest.as_slice());
    proof {
        assert(rest@ =~= s@.skip(k as int));
        assert(crate::text::trim(s@) == crate::text::trim_end(rest@));
    }
    n == 0
}

/// Accepts a declaration or module name; `kind` says which in the message.
pub fn validate_name(value: &str, kind: &str) -> (r: Result<(), AdapterError>)
    ensures
        r is Ok <==> is_name(value@),
        r matches Err(e) ==> failure(e, AUDIT_OUTPUT, kind@ + " is empty, oversized, or contains NUL"@),
{
    let s = chars_of(value);
    if !is_blank(value) && value.as_bytes().len() <= 4096 && crate::paths::no_nul(s.as_slice()) {
        Ok(())
    } else {
        Err(AdapterError::new(AUDIT_OUTPUT, prefixed(kind, " is empty, oversized, or contains NUL").as_str()))
    }
}

/// A canonical claim identifier: at most 160 characters of uppercase
/// letters, digits and `-`, starting with a letter, holding at least one
/// `-`, with no empty `-`-separated segment.
pub open spec fn is_claim_id(s: Seq<char>) -> bool {
    &&& 0 < s.len() <= 160
    &&& is_upper(s[0])
    &&& crate::text::contains(s, "-"@)
    &&& all_in(s, CharClass::UpperDash)
    &&& crate::names::dashes_inside_spec(s)
}

/// Accepts a canonical claim identifier.
pub fn validate_claim_id(value: &str) -> (r: Result<(), AdapterError>)
    ensures
        r is Ok <==> is_claim_id(value@),
        r matches Err(e) ==> failure(e, CONFIGURATION, "invalid canonical claim ID '"@ + value@ + "'"@),
{
    let s = chars_of(value);
    let dash = chars_of("-");
    proof {
        assert(s@.skip(0) =~= s@);
    }
    let ok = s.len() > 0 && s.len() <= 160 && 'A' <= s[0] && s[0] <= 'Z' && crate::text::find_in(
        s.as_slice(),
        dash.as_slice(),
        0,
    ).is_some() && all_chars_in(s.as_slice(), 0, CharClass::UpperDash)
        && crate::names::dashes_inside(s.as_slice());
    if ok {
        Ok(())
    } else {
        Err(AdapterError::new(CONFIGURATION, framed("invalid canonical claim ID '", value, "'").as_str()))
    }
}

/// A canonical evidence-unit identifier: 1 to 128 lowercase letters,
/// digits and `-`, starting with a letter.
pub open spec fn is_unit_id(s: Seq<char>) -> bool {
    &&& 0 < s.len() <= 128
    &&& is_lower(s[0])
    &&& all_in(s, CharClass::LowerDash)
}

/// Accepts a canonical evidence-unit identifier.
pub fn validate_local_id(value: &str) -> (r: Result<(), AdapterError>)
    ensures
        r is Ok <==> is_unit_id(value@),
        r matches Err(e) ==> failure(
            e,
            CONFIGURATION,
            "invalid canonical evidence unit ID '"@ + value@ + "'"@,
        ),
{
    let s = chars_of(value);
    proof {
        assert(s@.skip(0) =~= s@);
    }
    if s.len() > 0 && s.len() <= 128 && 'a' <= s[0] && s[0] <= 'z' && all_chars_in(
        s.as_slice(),
        0,
        CharClass::LowerDash,
    ) {
        Ok(())
    } else {
        Err(AdapterError::new(CONFIGURATION, framed("invalid canonical evidence unit ID '", value, "'").as_str()))
    }
}

/// Each value strictly below the next.
pub open spec fn strictly_increasing(values: Seq<Seq<char>>) -> bool {
    forall|i: int|
        0 <= i < values.len() - 1 ==> crate::inventory::seq_lt(#[trigger] values[i], values[i + 1])
}

/// Whether each value is strictly below the next.
pub fn increasing(values: &Vec<String>) -> (b: bool)
    ensures
        b == strictly_increasing(string_views(values@)),
{
    let lists = crate::text::char_lists(values);
    if lists.len() < 2 {
        return true;
    }
    let mut i: usize = 0;
    while i < lists.len() - 1
        invariant
            lists@.len() >= 2,
            views(lists@) == string_views(values@),
            i <= lists@.len(),
            forall|j: int|
                0 <= j < i && j + 1 < lists@.len() ==> crate::inventory::seq_lt(
                    #[trigger] views(lists@)[j],
                    views(lists@)[j + 1],
                ),
        decreases lists@.len() - i,
    {
        proof {
            assert(views(lists@)[i as int] == lists@[i as int]@);
            assert(views(lists@)[i + 1] == lists@[i + 1]@);
        }
        if crate::inventory::compare_chars(lists[i].as_slice(), lists[i + 1].as_slice()) != -1 {
            return false;
        }
        i = i + 1;
    }
    true
}

/// Requires a manifest list to be strictly sorted and so free of repeats.
pub fn require_sorted_unique(field: &str, values: &Vec<String>) -> (r: Result<(), AdapterError>)
    ensures
        r is Ok <==> strictly_increasing(string_views(values@)),
        r matches Err(e) ==> failure(
            e,
            CONFIGURATION,
            field@ + " must be strictly sorted and duplicate-free"@,
        ),
{
    if increasing(values) {
        Ok(())
    } else {
        Err(AdapterError::new(CONFIGURATION, prefixed(field, " must be strictly sorted and duplicate-free").as_str()))
    }
}

/// A glob metacharacter that an exact file path may not hold.
pub open spec fn is_glob_meta(c: char) -> bool {
    c == '*' || c == '?' || c == '[' || c == ']' || c == '{'
}

/// An exact relative file: nonempty, not absolute, with ordinary
/// components only, and no glob metacharacter.
pub open spec fn is_relative_file(s: Seq<char>) -> bool {
    &&& s.len() > 0
    &&& s[0] != '/'
    &&& crate::paths::segments(s)[0] != "."@
    &&& forall|k: int|
        0 <= k < crate::paths::segments(s).len() ==> #[trigger] crate::paths::segments(s)[k] != ".."@
    &&& forall|i: int| 0 <= i < s.len() ==> !is_glob_meta(#[trigger] s[i])
}

/// Accepts an exact relative file path.
pub fn validate_relative_file(value: &str) -> (r: Result<(), AdapterError>)
    ensures
        r is Ok <==> is_relative_file(value@),
        r matches Err(e) ==> failure(
            e,
            CONFIGURATION,
            "Lean evidence path must be an exact canonical relative file: '"@ + value@ + "'"@,
        ),
{
    let s = chars_of(value);
    let mut clean = true;
    let mut i: usize = 0;
    while i < s.len()
        invariant
            i <= s@.len(),
            clean <==> forall|j: int| 0 <= j < i ==> !is_glob_meta(#[trigger] s@[j]),
        decreases s@.len() - i,
    {
        let c = s[i];
        if c == '*' || c == '?' || c == '[' || c == ']' || c == '{' {
            proof {
                assert(is_glob_meta(s@[i as int]));
            }
            clean = false;
        }
        i = i + 1;
    }
    if clean && crate::paths::components_normal(s.as_slice()) {
        Ok(())
    } else {
        Err(AdapterError::new(CONFIGURATION, framed("Lean evidence path must be an exact canonical relative file: '", value, "'").as_str()))
    }
}

/// A Lean module name: `.`-separated nonempty segments of ASCII letters,
/// digits and `_`.
pub open spec fn is_module_name(s: Seq<char>) -> bool {
    forall|k: int|
        0 <= k < split(s, "."@).len() ==> #[trigger] split(s, "."@)[k].len() > 0 && all_in(
            split(s, "."@)[k],
            CharClass::Word,
        )
}

/// The module a theorem lives in: the target itself when the theorem is
/// declared inside it, or everything before the last `.` when the target is
/// the theorem.
pub open spec fn theorem_module(target: Seq<char>, theorem: Seq<char>) -> Option<Seq<char>> {
    if target == theorem {
        match crate::text::rfind(target, "."@) {
            Some(i) => Some(target.take(i)),
            None => None,
        }
    } else if crate::text::starts_with(theorem, target + "."@) {
        Some(target)
    } else {
        None
    }
}

/// Derives the audited module from the registered target and theorem.
pub fn module_from_target(target: &str, theorem: &str) -> (r: Result<String, AdapterError>)
    ensures
        theorem_module(target@, theorem@) is None ==> (r matches Err(e) && failure(
            e,
            CONFIGURATION,
            "cannot derive theorem module from target '"@ + target@ + "' and theorem '"@
                + theorem@ + "'"@,
        )),
        theorem_module(target@, theorem@) matches Some(m) ==> (if is_module_name(m) {
            r matches Ok(s) && s@ == m
        } else {
            r matches Err(e) && failure(e, CONFIGURATION, "unsupported Lean module name '"@ + m + "'"@)
        }),
{
    let t = chars_of(target);
    let th = chars_of(theorem);
    let same = t.len() == th.len() && crate::text::matches_at(th.as_slice(), t.as_slice(), 0);
    proof {
        if t@.len() == th@.len() {
            assert(th@.subrange(0, t@.len() as int) =~= th@);
        }
    }
    let module: Option<Vec<char>> = if same {
        let dot = chars_of(".");
        match crate::text::rfind_in(t.as_slice(), dot.as_slice()) {
            Some(i) => {
                let mut m: Vec<char> = Vec::new();
                crate::text::extend_range(&mut m, t.as_slice(), 0, i);
                proof {
                    assert(m@ =~= target@.take(i as int));
                }
                Some(m)
            },
            None => None,
        }
    } else {
        let mut prefix: Vec<char> = Vec::new();
        crate::text::extend_chars(&mut prefix, t.as_slice());
        prefix.push('.');
        proof {
            reveal_strlit(".");
            assert(prefix@ =~= target@ + "."@);
        }
        if crate::text::matches_at(th.as_slice(), prefix.as_slice(), 0) {
            let mut m: Vec<char> = Vec::new();
            crate::text::extend_chars(&mut m, t.as_slice());
            Some(m)
        } else {
            None
        }
    };
    match module {
        None => {
            let mut message = framed("cannot derive theorem module from target '", target, "' and theorem '");
            message.append(theorem);
            message.append("'");
            Err(AdapterError::new(CONFIGURATION, message.as_str()))
        },
        Some(m) => {
            let dot = chars_of(".");
            proof {
                reveal_strlit(".");
            }
            let parts = split_of(m.as_slice(), dot.as_slice());
            let mut k: usize = 0;
            let mut ok = true;
            while k < parts.len()
                invariant
                    k <= parts@.len(),
                    ok ==> forall|j: int|
                        0 <= j < k ==> #[trigger] views(parts@)[j].len() > 0 && all_in(
                            views(parts@)[j],
                            CharClass::Word,
                        ),
                    !ok ==> exists|j: int|
                        0 <= j < parts@.len() && !(#[trigger] views(parts@)[j].len() > 0 && all_in(
                            views(parts@)[j],
                            CharClass::Word,
                        )),
                decreases parts@.len() - k,
            {
                let part = parts[k].as_slice();
                proof {
                    assert(views(parts@)[k as int] == part@);
                    assert(part@.skip(0) =~= part@);
                }
                if part.len() == 0 || !all_chars_in(part, 0, CharClass::Word) {
                    ok = false;
                }
                k = k + 1;
            }
            let name = string_of(m.as_slice());
            if ok {
                Ok(name)
            } else {
                Err(AdapterError::new(CONFIGURATION, framed("unsupported Lean module name '", name.as_str(), "'").as_str()))
            }
        },
    }
}


/// The audit tool a captured execution names.
#[derive(Clone, Debug, PartialEq, Eq)]
pub struct CapturedTool {
    pub name: String,
    pub version: String,
    pub identity_sha256: String,
}

/// The command a captured execution ran.
#[derive(Clone, Debug, PartialEq, Eq)]
pub struct CapturedCommand {
    pub program: String,
    pub args: Vec<String>,
}

/// A captured audit execution: the tool and command, when it ran, and the
/// time it used.
#[derive(Clone, Debug, PartialEq, Eq)]
pub struct CapturedExecution {
    pub tool: CapturedTool,
    pub command: CapturedCommand,
    pub started_unix_ms: u64,
    pub completed_unix_ms: u64,
    pub time_ms: u64,
}

/// Why a captured execution cannot stand as the audit's execution: as a
/// code and a message.
pub open spec fn captured_fault(e: CapturedExecution, budget_ms: u64) -> Option<(&'static str, Seq<char>)> {
    if trim(e.tool.name@).len() == 0 || trim(e.tool.version@).len() == 0 || trim(e.command.program@).len() == 0 {
        Some((TOOL, "captured audit execution has an incomplete tool or command identity"@))
    } else if e.completed_unix_ms < e.started_unix_ms {
        Some((TOOL, "captured audit completion precedes its start"@))
    } else if e.time_ms > budget_ms {
        Some(
            (
                RESOURCE,
                "captured audit used "@ + decimal(e.time_ms as nat) + " ms, exceeding declared budget "@
                    + decimal(budget_ms as nat) + " ms"@,
            ),
        )
    } else {
        None
    }
}

fn blank(s: &str) -> (b: bool)
    ensures
        b == (trim(s@).len() == 0),
{
    crate::text::trim_chars(chars_of(s).as_slice()).len() == 0
}

/// Accepts a captured audit execution only with a complete tool and
/// command identity, a completion no earlier than its start, and a time
/// within the declared budget.
pub fn validate_captured_execution(execution: &CapturedExecution, budget_ms: u64) -> (r: Result<(), AdapterError>)
    ensures
        match captured_fault(*execution, budget_ms) {
            None => r is Ok,
            Some((code, m)) => r matches Err(e) && e.code == code && e.message@ == m && e.path is None
                && e.remediation is None,
        },
{
    if blank(execution.tool.name.as_str()) || blank(execution.tool.version.as_str()) || blank(
        execution.command.program.as_str(),
    ) {
        return Err(AdapterError::new(TOOL, "captured audit execution has an incomplete tool or command identity"));
    }
    if execution.completed_unix_ms < execution.started_unix_ms {
        return Err(AdapterError::new(TOOL, "captured audit completion precedes its start"));
    }
    if execution.time_ms > budget_ms {
        let mut m = "captured audit used ".to_owned();
        crate::text::push_decimal(&mut m, execution.time_ms);
        m.append(" ms, exceeding declared budget ");
        crate::text::push_decimal(&mut m, budget_ms);
        m.append(" ms");
        return Err(AdapterError::new(RESOURCE, m.as_str()));
    }
    Ok(())
}


/// Why a recorded resource usage breaks the unit's budget: a time budget
/// that overflows milliseconds, or time, disk or memory over budget.
pub open spec fn usage_fault(
    budget: crate::audit::ResourceBudget,
    time_ms: u64,
    peak_disk_bytes: u64,
    peak_memory_bytes: Option<u64>,
) -> Option<Seq<char>> {
    if budget.time_seconds * 1000 > u64::MAX {
        Some("time budget overflows milliseconds"@)
    } else if time_ms > budget.time_seconds * 1000 || peak_disk_bytes > budget.disk_bytes || (
    peak_memory_bytes matches Some(m) && m > budget.memory_bytes) {
        Some("Lean audit exceeded its declared time, disk, or memory budget"@)
    } else {
        None
    }
}

/// Holds a recorded execution's time, peak disk and peak memory (where it
/// was measured) to the unit's budget; gives the time budget in
/// milliseconds.
pub fn check_resource_usage(
    budget: &crate::audit::ResourceBudget,
    time_ms: u64,
    peak_disk_bytes: u64,
    peak_memory_bytes: Option<u64>,
) -> (r: Result<u64, AdapterError>)
    ensures
        match usage_fault(*budget, time_ms, peak_disk_bytes, peak_memory_bytes) {
            None => r == Ok::<u64, AdapterError>((budget.time_seconds * 1000) as u64),
            Some(m) => r matches Err(e) && e.code == RESOURCE && e.message@ == m,
        },
{
    let budget_ms = match budget.time_seconds.checked_mul(1000) {
        None => {
            return Err(AdapterError::new(RESOURCE, "time budget overflows milliseconds"));
        },
        Some(b) => b,
    };
    let memory_over = match peak_memory_bytes {
        Some(m) => m > budget.memory_bytes,
        None => false,
    };
    if time_ms > budget_ms || peak_disk_bytes > budget.disk_bytes || memory_over {
        return Err(AdapterError::new(RESOURCE, "Lean audit exceeded its declared time, disk, or memory budget"));
    }
    Ok(budget_ms)
}

/// Why a `lake --version` query cannot give the toolchain's version.
pub open spec fn lake_version_fault(success: bool, stdout: Seq<u8>) -> Option<Seq<char>> {
    if !success || stdout.len() > 4096 {
        Some("Lake/Lean version query failed or produced oversized output"@)
    } else if !vstd::utf8::valid_utf8(stdout) {
        Some("Lake version is not UTF-8: "@ + crate::text::utf8_error_text(stdout))
    } else if trim(vstd::utf8::decode_utf8(stdout)).len() == 0 {
        Some("Lake version is empty"@)
    } else {
        None
    }
}

/// Reads the version a `lake --version` query printed: the query must
/// have succeeded with at most 4096 bytes of UTF-8 output, which trimmed is
/// the version.
pub fn parse_lake_version(success: bool, stdout: &[u8]) -> (r: Result<String, AdapterError>)
    ensures
        match lake_version_fault(success, stdout@) {
            None => r matches Ok(v) && v@ == trim(vstd::utf8::decode_utf8(stdout@)),
            Some(m) => r matches Err(e) && e.code == TOOL && e.message@ == m,
        },
{
    if !success || stdout.len() > 4096 {
        return Err(AdapterError::new(TOOL, "Lake/Lean version query failed or produced oversized output"));
    }
    let text = match crate::text::utf8_text(stdout) {
        Ok(t) => t,
        Err(m) => {
            return Err(AdapterError::new(TOOL, prefixed("Lake version is not UTF-8: ", m.as_str()).as_str()));
        },
    };
    let version = crate::text::trim_chars(chars_of(text.as_str()).as_slice());
    if version.len() == 0 {
        return Err(AdapterError::new(TOOL, "Lake version is empty"));
    }
    Ok(string_of(version.as_slice()))
}

} // verus!
