//! The Rust, Python and checker test adapter: its constants, failures and
//! the decisions it makes about arguments, inventories and runner output.
use vstd::prelude::*;
use crate::aeneas::{framed, prefixed};
use crate::inventory::{has_duplicates, missing_from, sorted_set, MAX_INVENTORY};
use crate::normalize::{
    logicalize_spec, logicalize_with, normalize_output_with, normalize_timing_with, normalized_text,
    pair_views, timing_spec, truncate_chars, truncated,
};
use crate::process::{
    failed_run, failed_run_message, failure_detail, Diagnostic, ProcessOutput, ProcessSpec,
    MAX_MESSAGE_CHARS,
};
use crate::runner::{one_python_pass, one_test_reported, output_lines, passed_summaries};
use crate::text::{
    chars_of, debug_status, decimal, push_decimal, push_status, string_of, string_views, strings_of,
    char_lists, views,
};

verus! {

pub const PROTOCOL_SCHEMA: &'static str = "proofbound-adapter-protocol/1";

pub const OBSERVATION_SCHEMA: &'static str = "proofbound-adapter-observation/2";

pub const MAX_REQUEST_BYTES: u64 = 2097152;

/// Why a test-adapter request failed.
#[derive(Clone, Debug, PartialEq, Eq)]
pub enum AdapterError {
    Io(String),
    ToolUnavailable { program: String, source: String },
    Timeout(u64),
    Request(String),
    Unit(String),
    UnsafePath(String),
    Inventory(String),
    ToolFailed(String),
    Budget(String),
    Internal(String),
}

impl AdapterError {
    /// The stable diagnostic code of each failure class.
    pub open spec fn code_spec(&self) -> Seq<char> {
        match *self {
            AdapterError::ToolUnavailable { .. } => "PB-TEST-1001"@,
            AdapterError::Timeout(_) | AdapterError::Budget(_) => "PB-TEST-1002"@,
            AdapterError::Request(_) => "PB-TEST-1003"@,
            AdapterError::Unit(_) => "PB-TEST-1004"@,
            AdapterError::UnsafePath(_) => "PB-TEST-1005"@,
            AdapterError::Inventory(_) => "PB-TEST-1006"@,
            AdapterError::ToolFailed(_) => "PB-TEST-1007"@,
            AdapterError::Io(_) | AdapterError::Internal(_) => "PB-TEST-1099"@,
        }
    }

    /// The stable diagnostic code.
    pub fn code(&self) -> (s: &'static str)
        ensures
            s@ == self.code_spec(),
    {
        match self {
            AdapterError::ToolUnavailable { .. } => "PB-TEST-1001",
            AdapterError::Timeout(_) | AdapterError::Budget(_) => "PB-TEST-1002",
            AdapterError::Request(_) => "PB-TEST-1003",
            AdapterError::Unit(_) => "PB-TEST-1004",
            AdapterError::UnsafePath(_) => "PB-TEST-1005",
            AdapterError::Inventory(_) => "PB-TEST-1006",
            AdapterError::ToolFailed(_) => "PB-TEST-1007",
            AdapterError::Io(_) | AdapterError::Internal(_) => "PB-TEST-1099",
        }
    }

    /// What the operator should do about the failure.
    pub open spec fn remediation_spec(&self) -> Seq<char> {
        match *self {
            AdapterError::ToolUnavailable { .. } => "install the pinned Rust/Python test toolchain and expose it through the declared environment"@,
            AdapterError::Timeout(_) | AdapterError::Budget(_) => "review the workload and increase the evidence-unit budget if justified"@,
            AdapterError::Request(_) => "send canonical proofbound-adapter-protocol/1 JSON with no unknown fields"@,
            AdapterError::Unit(_) => "use a supported strict evidence unit with a typed operation and arguments"@,
            AdapterError::UnsafePath(_) => "use only relative, non-symlink paths contained by the project root"@,
            AdapterError::Inventory(_) => "make the configured target inventory exactly match collected test metadata"@,
            AdapterError::ToolFailed(_) => "reproduce the exact registered operation and fix its failure"@,
            AdapterError::Io(_) | AdapterError::Internal(_) => "inspect the diagnostic and retry from a clean checkout"@,
        }
    }

    /// What the operator should do about the failure.
    pub fn remediation(&self) -> (s: &'static str)
        ensures
            s@ == self.remediation_spec(),
    {
        match self {
            AdapterError::ToolUnavailable { .. } => "install the pinned Rust/Python test toolchain and expose it through the declared environment",
            AdapterError::Timeout(_) | AdapterError::Budget(_) => "review the workload and increase the evidence-unit budget if justified",
            AdapterError::Request(_) => "send canonical proofbound-adapter-protocol/1 JSON with no unknown fields",
            AdapterError::Unit(_) => "use a supported strict evidence unit with a typed operation and arguments",
            AdapterError::UnsafePath(_) => "use only relative, non-symlink paths contained by the project root",
            AdapterError::Inventory(_) => "make the configured target inventory exactly match collected test metadata",
            AdapterError::ToolFailed(_) => "reproduce the exact registered operation and fix its failure",
            AdapterError::Io(_) | AdapterError::Internal(_) => "inspect the diagnostic and retry from a clean checkout",
        }
    }

    /// The human-readable sentence for the failure.
    pub open spec fn message_spec(&self) -> Seq<char> {
        match *self {
            AdapterError::Io(m) => "I/O error: "@ + m@,
            AdapterError::ToolUnavailable { program, source } => "tool `"@ + program@
                + "` is unavailable: "@ + source@,
            AdapterError::Timeout(ms) => "tool exceeded its "@ + decimal(ms as nat)
                + " ms time budget"@,
            AdapterError::Request(m) => "invalid request: "@ + m@,
            AdapterError::Unit(m) => "invalid unit: "@ + m@,
            AdapterError::UnsafePath(p) => "unsafe path `"@ + p@ + "`"@,
            AdapterError::Inventory(m) => "test inventory is invalid: "@ + m@,
            AdapterError::ToolFailed(m) => "tool failed: "@ + m@,
            AdapterError::Budget(m) => "resource budget exceeded: "@ + m@,
            AdapterError::Internal(m) => "internal adapter error: "@ + m@,
        }
    }

    /// The human-readable sentence for the failure.
    pub fn message(&self) -> (s: String)
        ensures
            s@ == self.message_spec(),
    {
        match self {
            AdapterError::Io(m) => prefixed("I/O error: ", m.as_str()),
            AdapterError::ToolUnavailable { program, source } => {
                let mut s = framed("tool `", program.as_str(), "` is unavailable: ");
                s.append(source.as_str());
                s
            },
            AdapterError::Timeout(ms) => {
                let mut s = "tool exceeded its ".to_owned();
                push_decimal(&mut s, *ms);
                s.append(" ms time budget");
                s
            },
            AdapterError::Request(m) => prefixed("invalid request: ", m.as_str()),
            AdapterError::Unit(m) => prefixed("invalid unit: ", m.as_str()),
            AdapterError::UnsafePath(p) => framed("unsafe path `", p.as_str(), "`"),
            AdapterError::Inventory(m) => prefixed("test inventory is invalid: ", m.as_str()),
            AdapterError::ToolFailed(m) => prefixed("tool failed: ", m.as_str()),
            AdapterError::Budget(m) => prefixed("resource budget exceeded: ", m.as_str()),
            AdapterError::Internal(m) => prefixed("internal adapter error: ", m.as_str()),
        }
    }

    /// The protocol diagnostic: code, message cut to 8192 characters, the
    /// unsafe path if any, and the remediation.
    pub fn diagnostic(&self) -> (d: Diagnostic)
        ensures
            d.code@ == self.code_spec(),
            d.message@ == truncated(self.message_spec(), MAX_MESSAGE_CHARS as nat),
            (d.path is Some) <==> (self is UnsafePath),
            self matches AdapterError::UnsafePath(p) ==> d.path matches Some(q) && q@ == p@,
            d.remediation matches Some(r) && r@ == self.remediation_spec(),
    {
        let message = self.message();
        let path = match self {
            AdapterError::UnsafePath(p) => Some(p.as_str().to_owned()),
            _ => None,
        };
        Diagnostic {
            code: self.code().to_owned(),
            message: truncate_chars(message.as_str(), MAX_MESSAGE_CHARS),
            path,
            remediation: Some(self.remediation().to_owned()),
        }
    }
}

} // verus!

verus! {

/// The kind of test operation a unit registers.
#[derive(Clone, Copy, Debug, PartialEq, Eq, Structural)]
pub enum TestFlavor {
    Rust,
    Python,
    Generator,
    CanonicalArtifact,
    IndependentCheck,
    TrustedTranscription,
}

/// The options that would let a user argument take over the invocation
/// the adapter controls.
pub open spec fn forbidden_flags(flavor: TestFlavor) -> Seq<Seq<char>> {
    match flavor {
        TestFlavor::Rust => seq![
            "--manifest-path"@,
            "--target-dir"@,
            "--config"@,
            "--package"@,
            "-p"@,
            "--workspace"@,
            "--exclude"@,
            "--lockfile-path"@,
        ],
        TestFlavor::Python => seq![
            "--rootdir"@,
            "--basetemp"@,
            "--confcutdir"@,
            "--override-ini"@,
            "--pyargs"@,
            "--ignore"@,
            "--ignore-glob"@,
            "-c"@,
            "-p"@,
        ],
        _ => Seq::empty(),
    }
}

/// `argument` is a flag of `flags` or sets one with `flag=value`.
pub open spec fn uses_flag(argument: Seq<char>, flags: Seq<Seq<char>>) -> bool {
    exists|k: int|
        0 <= k < flags.len() && (argument == #[trigger] flags[k] || crate::text::starts_with(
            argument,
            flags[k] + "="@,
        ))
}

/// An argument that could escape or alter the invocation: too long, with
/// a NUL or line break, or naming a forbidden flag.
pub open spec fn dangerous_argument(argument: Seq<char>, flavor: TestFlavor) -> bool {
    ||| vstd::utf8::encode_utf8(argument).len() > 4096
    ||| exists|i: int|
        0 <= i < argument.len() && (#[trigger] argument[i] == '\0' || argument[i] == '\n'
            || argument[i] == '\r')
    ||| uses_flag(argument, forbidden_flags(flavor))
}

/// Checker units pass only paths.
pub open spec fn paths_only(flavor: TestFlavor) -> bool {
    flavor == TestFlavor::CanonicalArtifact || flavor == TestFlavor::IndependentCheck
}

/// The first argument that is dangerous, or (for checkers) not a relative
/// path.
pub open spec fn first_bad_argument(arguments: Seq<Seq<char>>, flavor: TestFlavor, from: int) -> Option<int>
    decreases arguments.len() - from,
{
    if from < 0 || from >= arguments.len() {
        None
    } else if dangerous_argument(arguments[from], flavor) || (paths_only(flavor)
        && !crate::paths::is_relative_path(arguments[from])) {
        Some(from)
    } else {
        first_bad_argument(arguments, flavor, from + 1)
    }
}

/// The argument found is one of those searched.
pub proof fn lemma_first_bad_argument_in_range(arguments: Seq<Seq<char>>, flavor: TestFlavor, from: int)
    ensures
        first_bad_argument(arguments, flavor, from) matches Some(k) ==> from <= k < arguments.len(),
    decreases arguments.len() - from,
{
    if 0 <= from < arguments.len() {
        lemma_first_bad_argument_in_range(arguments, flavor, from + 1);
    }
}

fn forbidden_list(flavor: TestFlavor) -> (out: Vec<Vec<char>>)
    ensures
        views(out@) == forbidden_flags(flavor),
{
    let out = match flavor {
        TestFlavor::Rust => crate::names::markers_of(
            &[
                "--manifest-path",
                "--target-dir",
                "--config",
                "--package",
                "-p",
                "--workspace",
                "--exclude",
                "--lockfile-path",
            ],
        ),
        TestFlavor::Python => crate::names::markers_of(
            &[
                "--rootdir",
                "--basetemp",
                "--confcutdir",
                "--override-ini",
                "--pyargs",
                "--ignore",
                "--ignore-glob",
                "-c",
                "-p",
            ],
        ),
        _ => Vec::new(),
    };
    proof {
        assert(views(out@) =~= forbidden_flags(flavor));
    }
    out
}

fn is_dangerous(argument: &str, flags: &Vec<Vec<char>>, flavor: TestFlavor) -> (b: bool)
    requires
        views(flags@) == forbidden_flags(flavor),
    ensures
        b == dangerous_argument(argument@, flavor),
{
    let a = chars_of(argument);
    if argument.as_bytes().len() > 4096 {
        return true;
    }
    let mut i: usize = 0;
    while i < a.len()
        invariant
            a@ == argument@,
            i <= a@.len(),
            forall|j: int| 0 <= j < i ==> !(#[trigger] a@[j] == '\0' || a@[j] == '\n' || a@[j] == '\r'),
        decreases a@.len() - i,
    {
        if a[i] == '\0' || a[i] == '\n' || a[i] == '\r' {
            return true;
        }
        i = i + 1;
    }
    let mut k: usize = 0;
    while k < flags.len()
        invariant
            a@ == argument@,
            views(flags@) == forbidden_flags(flavor),
            k <= flags@.len(),
            forall|j: int|
                0 <= j < k ==> !(argument@ == #[trigger] views(flags@)[j] || crate::text::starts_with(
                    argument@,
                    views(flags@)[j] + "="@,
                )),
        decreases flags@.len() - k,
    {
        let f = flags[k].as_slice();
        proof {
            assert(views(flags@)[k as int] == f@);
        }
        let mut with_eq: Vec<char> = Vec::new();
        crate::text::extend_chars(&mut with_eq, f);
        with_eq.push('=');
        proof {
            reveal_strlit("=");
            assert(with_eq@ =~= f@ + "="@);
        }
        let same = a.len() == f.len() && matches_at_start(a.as_slice(), f);
        let prefixed = matches_at_start(a.as_slice(), with_eq.as_slice());
        if same || prefixed {
            return true;
        }
        k = k + 1;
    }
    false
}

pub(crate) fn equals_lit(s: &[char], lit: &str) -> (b: bool)
    ensures
        b == (s@ == lit@),
{
    let l = chars_of(lit);
    s.len() == l.len() && matches_at_start(s, l.as_slice())
}

fn matches_at_start(s: &[char], p: &[char]) -> (b: bool)
    ensures
        b == crate::text::starts_with(s@, p@),
        b && s@.len() == p@.len() ==> s@ == p@,
        s@ == p@ ==> b,
{
    let m = crate::text::matches_at(s, p, 0);
    proof {
        if s@.len() == p@.len() {
            assert(s@.subrange(0, p@.len() as int) =~= s@);
        }
    }
    m
}

/// Rejects arguments that could escape or alter the invocation the adapter
/// controls; checker arguments must also be relative paths.
pub fn validate_arguments(flavor: TestFlavor, arguments: &Vec<String>) -> (r: Result<(), AdapterError>)
    ensures
        arguments@.len() > 4096 ==> (r matches Err(AdapterError::Unit(m)) && m@ == "too many arguments"@),
        arguments@.len() <= 4096 ==> match first_bad_argument(string_views(arguments@), flavor, 0) {
            None => r is Ok,
            Some(k) => if dangerous_argument(arguments@[k]@, flavor) {
                r matches Err(AdapterError::Unit(m)) && m@ == "argument `"@ + arguments@[k]@
                    + "` may escape or alter the adapter-controlled invocation"@
            } else {
                r matches Err(AdapterError::UnsafePath(p)) && p@ == arguments@[k]@
            },
        },
{
    if arguments.len() > 4096 {
        return Err(AdapterError::Unit("too many arguments".to_owned()));
    }
    let flags = forbidden_list(flavor);
    let mut i: usize = 0;
    while i < arguments.len()
        invariant
            arguments@.len() <= 4096,
            i <= arguments@.len(),
            views(flags@) == forbidden_flags(flavor),
            first_bad_argument(string_views(arguments@), flavor, 0) == first_bad_argument(
                string_views(arguments@),
                flavor,
                i as int,
            ),
        decreases arguments@.len() - i,
    {
        let argument = arguments[i].as_str();
        proof {
            assert(string_views(arguments@)[i as int] == argument@);
        }
        if is_dangerous(argument, &flags, flavor) {
            return Err(AdapterError::Unit(framed("argument `", argument, "` may escape or alter the adapter-controlled invocation")));
        }
        if flavor == TestFlavor::CanonicalArtifact || flavor == TestFlavor::IndependentCheck {
            if !crate::paths::relative_path_ok(argument) {
                return Err(AdapterError::UnsafePath(argument.to_owned()));
            }
        }
        i = i + 1;
    }
    Ok(())
}

/// The Cargo target selectors a unit may use.
pub open spec fn is_cargo_selector(s: Seq<char>) -> bool {
    ||| s == "--lib"@
    ||| s == "--bins"@
    ||| s == "--tests"@
    ||| s == "--all-targets"@
    ||| s == "--examples"@
    ||| s == "--benches"@
    ||| exists|k: int|
        0 <= k < 4 && crate::text::starts_with(s, #[trigger] selector_prefixes()[k])
            && crate::names::is_safe_atom(s.skip(selector_prefixes()[k].len() as int))
}

pub open spec fn selector_prefixes() -> Seq<Seq<char>> {
    seq!["--test="@, "--bin="@, "--example="@, "--bench="@]
}

/// Accepts a supported Cargo target selector.
pub fn validate_cargo_selector(selector: &str) -> (r: Result<(), AdapterError>)
    ensures
        r is Ok <==> is_cargo_selector(selector@),
        r matches Err(e) ==> (e matches AdapterError::Unit(m) && m@ == "unsupported Cargo target selector `"@
            + selector@ + "`"@),
{
    let s = chars_of(selector);
    let prefixes = crate::names::markers_of(&["--test=", "--bin=", "--example=", "--bench="]);
    proof {
        assert(views(prefixes@) =~= selector_prefixes());
    }
    if equals_lit(s.as_slice(), "--lib") || equals_lit(s.as_slice(), "--bins") || equals_lit(
        s.as_slice(),
        "--tests",
    ) || equals_lit(s.as_slice(), "--all-targets") || equals_lit(s.as_slice(), "--examples")
        || equals_lit(s.as_slice(), "--benches") {
        return Ok(());
    }
    let mut q: usize = 0;
    while q < prefixes.len()
        invariant
            q <= prefixes@.len(),
            prefixes@.len() == 4,
            views(prefixes@) == selector_prefixes(),
            s@ == selector@,
            forall|j: int|
                0 <= j < q ==> !(crate::text::starts_with(s@, #[trigger] selector_prefixes()[j])
                    && crate::names::is_safe_atom(s@.skip(selector_prefixes()[j].len() as int))),
        decreases prefixes@.len() - q,
    {
        let p = prefixes[q].as_slice();
        proof {
            assert(views(prefixes@)[q as int] == p@);
        }
        if matches_at_start(s.as_slice(), p) {
            let mut rest: Vec<char> = Vec::new();
            crate::text::extend_range(&mut rest, s.as_slice(), p.len(), s.len());
            proof {
                assert(rest@ =~= s@.skip(p@.len() as int));
            }
            if crate::names::safe_atom_chars(rest.as_slice()) {
                proof {
                    assert(crate::text::starts_with(s@, selector_prefixes()[q as int])
                        && crate::names::is_safe_atom(
                        s@.skip(selector_prefixes()[q as int].len() as int),
                    ));
                }
                return Ok(());
            }
        }
        q = q + 1;
    }
    Err(AdapterError::Unit(framed("unsupported Cargo target selector `", selector, "`")))
}

} // verus!

verus! {

/// Decodes one stream of a runner's output, naming it in the error.
fn decode_stream(bytes: &[u8], what: &str) -> (r: Result<String, AdapterError>)
    ensures
        vstd::utf8::valid_utf8(bytes@) ==> (r matches Ok(s) && s@ == vstd::utf8::decode_utf8(
            bytes@,
        )),
        !vstd::utf8::valid_utf8(bytes@) ==> (r matches Err(AdapterError::Inventory(m)) && m@
            == "non-UTF-8 "@ + what@ + " output: "@ + crate::text::utf8_error_text(bytes@)),
{
    match crate::text::utf8_text(bytes) {
        Ok(s) => Ok(s),
        Err(e) => {
            let mut m = framed("non-UTF-8 ", what, " output: ");
            m.append(e.as_str());
            Err(AdapterError::Inventory(m))
        },
    }
}

/// What a runner check decides from the two streams: the first stream that
/// is not UTF-8 is reported, else `accept` decides on the decoded text.
pub open spec fn stream_outcome(
    stdout: Seq<u8>,
    stderr: Seq<u8>,
    what: Seq<char>,
    r: Result<(), AdapterError>,
    accepted: spec_fn(Seq<char>, Seq<char>) -> bool,
    rejection: Seq<char>,
) -> bool {
    if !vstd::utf8::valid_utf8(stdout) {
        r matches Err(AdapterError::Inventory(m)) && m@ == "non-UTF-8 "@ + what + " output: "@
            + crate::text::utf8_error_text(stdout)
    } else if !vstd::utf8::valid_utf8(stderr) {
        r matches Err(AdapterError::Inventory(m)) && m@ == "non-UTF-8 "@ + what + " output: "@
            + crate::text::utf8_error_text(stderr)
    } else if accepted(vstd::utf8::decode_utf8(stdout), vstd::utf8::decode_utf8(stderr)) {
        r is Ok
    } else {
        r matches Err(AdapterError::Inventory(m)) && m@ == rejection
    }
}

/// libtest reported exactly one passing test named `name`.
pub open spec fn one_rust_pass(stdout: Seq<char>, stderr: Seq<char>, name: Seq<char>) -> bool {
    one_test_reported(
        output_lines(stdout, stderr),
        name,
        "ok"@,
        "ok. "@,
        seq!["1 passed"@, "0 failed"@, "0 ignored"@, "0 measured"@],
    )
}

/// libtest reported exactly one failing test named `name`.
pub open spec fn one_rust_failure(stdout: Seq<char>, stderr: Seq<char>, name: Seq<char>) -> bool {
    one_test_reported(
        output_lines(stdout, stderr),
        name,
        "FAILED"@,
        "FAILED. "@,
        seq!["0 passed"@, "1 failed"@, "0 ignored"@, "0 measured"@],
    )
}

/// Requires libtest to report that exactly the selected test ran and passed.
pub fn ensure_one_rust_test_ran(name: &str, output: &ProcessOutput) -> (r: Result<(), AdapterError>)
    ensures
        stream_outcome(
            output.stdout@,
            output.stderr@,
            "libtest"@,
            r,
            |o: Seq<char>, e: Seq<char>| one_rust_pass(o, e, name@),
            "Rust test `"@ + name@ + "` did not report exactly one passing test"@,
        ),
{
    let stdout = decode_stream(output.stdout.as_slice(), "libtest")?;
    let stderr = decode_stream(output.stderr.as_slice(), "libtest")?;
    let ls = crate::runner::output_lines_of(stdout.as_str(), stderr.as_str());
    let counts = crate::runner::counts_of("1 passed", "0 failed");
    if crate::runner::one_test_reported_in(&ls, name, "ok", "ok. ", &counts) {
        Ok(())
    } else {
        Err(AdapterError::Inventory(framed("Rust test `", name, "` did not report exactly one passing test")))
    }
}

/// Requires a mutant witness to exit 101 with libtest reporting that
/// exactly the selected test ran and failed.
pub fn ensure_one_rust_test_failed(name: &str, output: &ProcessOutput) -> (r: Result<(), AdapterError>)
    ensures
        output.truncated ==> (r matches Err(AdapterError::Inventory(m)) && m@
            == "mutant witness output was truncated"@),
        !output.truncated && output.status != Some(101i32) ==> (r matches Err(
            AdapterError::ToolFailed(m),
        ) && m@ == "mutant witness exited "@ + debug_status(output.status)
            + "; exact Rust libtest exit 101 is required"@),
        !output.truncated && output.status == Some(101i32) ==> stream_outcome(
            output.stdout@,
            output.stderr@,
            "libtest"@,
            r,
            |o: Seq<char>, e: Seq<char>| one_rust_failure(o, e, name@),
            "Rust mutant witness `"@ + name@ + "` did not report exactly one failing test"@,
        ),
{
    if output.truncated {
        return Err(AdapterError::Inventory("mutant witness output was truncated".to_owned()));
    }
    if output.status != Some(101i32) {
        let mut m = "mutant witness exited ".to_owned();
        push_status(&mut m, output.status);
        m.append("; exact Rust libtest exit 101 is required");
        return Err(AdapterError::ToolFailed(m));
    }
    let stdout = decode_stream(output.stdout.as_slice(), "libtest")?;
    let stderr = decode_stream(output.stderr.as_slice(), "libtest")?;
    let ls = crate::runner::output_lines_of(stdout.as_str(), stderr.as_str());
    let counts = crate::runner::counts_of("0 passed", "1 failed");
    if crate::runner::one_test_reported_in(&ls, name, "FAILED", "FAILED. ", &counts) {
        Ok(())
    } else {
        Err(AdapterError::Inventory(framed("Rust mutant witness `", name, "` did not report exactly one failing test")))
    }
}

/// Requires pytest to report exactly one passing test and nothing else.
pub fn ensure_one_python_test_ran(name: &str, output: &ProcessOutput) -> (r: Result<(), AdapterError>)
    ensures
        stream_outcome(
            output.stdout@,
            output.stderr@,
            "pytest"@,
            r,
            |o: Seq<char>, e: Seq<char>| one_python_pass(passed_summaries(output_lines(o, e))),
            "pytest node `"@ + name@ + "` did not report exactly one passing test"@,
        ),
{
    let stdout = decode_stream(output.stdout.as_slice(), "pytest")?;
    let stderr = decode_stream(output.stderr.as_slice(), "pytest")?;
    let ls = crate::runner::output_lines_of(stdout.as_str(), stderr.as_str());
    let summaries = crate::runner::passed_summaries_of(&ls);
    if crate::runner::one_python_pass_in(&summaries) {
        Ok(())
    } else {
        Err(AdapterError::Inventory(framed("pytest node `", name, "` did not report exactly one passing test")))
    }
}

} // verus!

verus! {

/// `acc` in front of a successful result; errors pass through.
pub open spec fn prepend(acc: Seq<Seq<char>>, r: Result<Seq<Seq<char>>, Seq<char>>) -> Result<Seq<Seq<char>>, Seq<char>> {
    match r {
        Ok(t) => Ok(acc + t),
        Err(e) => Err(e),
    }
}

/// The test names of a `--list` output, in order, or the first line that
/// is neither a test, a benchmark nor blank.
pub open spec fn libtest_names(ls: Seq<Seq<char>>) -> Result<Seq<Seq<char>>, Seq<char>>
    decreases ls.len(),
{
    if ls.len() == 0 {
        Ok(Seq::empty())
    } else {
        let l = ls[0];
        if crate::text::trim(l).len() == 0 {
            libtest_names(ls.drop_first())
        } else if crate::text::ends_with(l, ": test"@) {
            let n = l.take(l.len() - 6);
            if !crate::names::is_libtest_name(n) {
                Err("unsafe libtest name `"@ + n + "`"@)
            } else {
                prepend(seq![n], libtest_names(ls.drop_first()))
            }
        } else if crate::text::ends_with(l, ": benchmark"@) {
            libtest_names(ls.drop_first())
        } else {
            Err("unrecognized libtest inventory line `"@ + l + "`"@)
        }
    }
}

proof fn lemma_prepend_assoc(a: Seq<Seq<char>>, b: Seq<Seq<char>>, r: Result<Seq<Seq<char>>, Seq<char>>)
    ensures
        prepend(a, prepend(b, r)) == prepend(a + b, r),
{
    match r {
        Ok(t) => {
            assert(a + (b + t) =~= a + b + t);
        },
        Err(_) => {},
    }
}

/// The sorted test names that a libtest binary lists.
#[verifier::loop_isolation(false)]
pub fn parse_libtest_inventory(bytes: &[u8]) -> (r: Result<Vec<String>, AdapterError>)
    ensures
        !vstd::utf8::valid_utf8(bytes@) ==> (r matches Err(AdapterError::Inventory(m)) && m@
            == crate::text::utf8_error_text(bytes@)),
        vstd::utf8::valid_utf8(bytes@) ==> match libtest_names(crate::text::lines(vstd::utf8::decode_utf8(bytes@))) {
            Err(m) => r matches Err(AdapterError::Inventory(e)) && e@ == m,
            Ok(names) => if names.len() > MAX_INVENTORY {
                r matches Err(AdapterError::Inventory(e)) && e@ == "libtest inventory"@ + " exceeds 100000 items"@
            } else if has_duplicates(names) {
                r matches Err(AdapterError::Inventory(e)) && e@ == "libtest inventory"@ + " contains duplicates"@
            } else {
                r matches Ok(items) && string_views(items@) == sorted_set(names)
            },
        },
{
    let text = match crate::text::utf8_text(bytes) {
        Ok(t) => t,
        Err(e) => {
            return Err(AdapterError::Inventory(e));
        },
    };
    let chars = chars_of(text.as_str());
    let ls = crate::text::lines_of(chars.as_slice());
    let ghost all = views(ls@);
    let test_suffix = chars_of(": test");
    let bench_suffix = chars_of(": benchmark");
    proof {
        reveal_strlit(": test");
    }
    let mut tests: Vec<String> = Vec::new();
    let mut i: usize = 0;
    proof {
        assert(all.skip(0) =~= all);
        assert(prepend(Seq::empty(), libtest_names(all)) == libtest_names(all)) by {
            match libtest_names(all) {
                Ok(t) => {
                    assert(Seq::<Seq<char>>::empty() + t =~= t);
                },
                Err(_) => {},
            }
        }
    }
    while i < ls.len()
        invariant
            all == views(ls@),
            i <= all.len(),
            test_suffix@ == ": test"@,
            test_suffix@.len() == 6,
            bench_suffix@ == ": benchmark"@,
            libtest_names(all) == prepend(string_views(tests@), libtest_names(all.skip(i as int))),
        decreases all.len() - i,
    {
        let line = ls[i].as_slice();
        proof {
            assert(all.skip(i as int)[0] == line@);
            assert(all.skip(i as int).drop_first() =~= all.skip(i + 1));
        }
        let k = crate::text::trim_start_len(line);
        let mut rest: Vec<char> = Vec::new();
        crate::text::extend_range(&mut rest, line, k, line.len());
        let n = crate::text::trim_end_len(rest.as_slice());
        proof {
            assert(rest@ =~= line@.skip(k as int));
            assert(crate::text::trim(line@).len() == n);
        }
        if n == 0 {
            i = i + 1;
            continue;
        }
        let ends_test = line.len() >= 6 && crate::text::matches_at(line, test_suffix.as_slice(), line.len() - 6);
        if ends_test {
            let mut name: Vec<char> = Vec::new();
            crate::text::extend_range(&mut name, line, 0, line.len() - 6);
            let name_string = string_of(name.as_slice());
            proof {
                assert(name@ =~= line@.take(line@.len() - 6));
            }
            if !crate::names::safe_libtest_name(name_string.as_str()) {
                return Err(AdapterError::Inventory(framed("unsafe libtest name `", name_string.as_str(), "`")));
            }
            let ghost before = string_views(tests@);
            tests.push(name_string);
            proof {
                assert(string_views(tests@) =~= before + seq![name@]);
                lemma_prepend_assoc(before, seq![name@], libtest_names(all.skip(i + 1)));
            }
            i = i + 1;
            continue;
        }
        let ends_bench = line.len() >= bench_suffix.len() && crate::text::matches_at(
            line,
            bench_suffix.as_slice(),
            line.len() - bench_suffix.len(),
        );
        if ends_bench {
            i = i + 1;
            continue;
        }
        let whole = string_of(line);
        return Err(AdapterError::Inventory(framed("unrecognized libtest inventory line `", whole.as_str(), "`")));
    }
    proof {
        assert(all.skip(i as int) =~= Seq::<Seq<char>>::empty());
        assert(string_views(tests@) + Seq::<Seq<char>>::empty() =~= string_views(tests@));
    }
    sorted_unique(tests, "libtest inventory")
}

/// Sorts a list, rejecting one beyond the inventory bound or with a
/// repeated value.
pub fn sorted_unique(values: Vec<String>, label: &str) -> (r: Result<Vec<String>, AdapterError>)
    ensures
        values@.len() > MAX_INVENTORY ==> (r matches Err(AdapterError::Inventory(m)) && m@ == label@
            + " exceeds 100000 items"@),
        values@.len() <= MAX_INVENTORY && has_duplicates(string_views(values@)) ==> (r matches Err(
            AdapterError::Inventory(m),
        ) && m@ == label@ + " contains duplicates"@),
        values@.len() <= MAX_INVENTORY && !has_duplicates(string_views(values@)) ==> (r matches Ok(
            out,
        ) && string_views(out@) == sorted_set(string_views(values@))),
{
    let lists = char_lists(&values);
    match crate::inventory::sorted_unique_chars(&lists) {
        Ok(sorted) => Ok(strings_of(&sorted)),
        Err(crate::inventory::InventoryFault::TooLarge) => Err(AdapterError::Inventory(prefixed(label, " exceeds 100000 items"))),
        Err(crate::inventory::InventoryFault::Duplicates) => Err(AdapterError::Inventory(prefixed(label, " contains duplicates"))),
    }
}

/// Why a list cannot stand as an inventory: over the bound, or repeating a
/// name.
pub open spec fn list_fault(label: Seq<char>, values: Seq<Seq<char>>) -> Option<Seq<char>> {
    if values.len() > MAX_INVENTORY {
        Some(label + " exceeds 100000 items"@)
    } else if has_duplicates(values) {
        Some(label + " contains duplicates"@)
    } else {
        None
    }
}

/// Why two inventories are not the same set: the first invalid list, or
/// the names each lacks.
pub open spec fn exact_set_fault(label: Seq<char>, expected: Seq<Seq<char>>, actual: Seq<Seq<char>>) -> Option<
    Seq<char>,
> {
    match list_fault(label, expected) {
        Some(m) => Some(m),
        None => match list_fault(label, actual) {
            Some(m) => Some(m),
            None => if crate::inventory::same_values(expected, actual) {
                None
            } else {
                Some(
                    crate::aeneas::mismatch_message(
                        label,
                        missing_from(sorted_set(expected), sorted_set(actual)),
                        missing_from(sorted_set(actual), sorted_set(expected)),
                    ),
                )
            },
        },
    }
}

/// Requires two lists to name the same set; each must be bounded and free
/// of repeats (the expected one is checked first).
pub fn exact_set(label: &str, expected: &Vec<String>, actual: &Vec<String>) -> (r: Result<(), AdapterError>)
    ensures
        match exact_set_fault(label@, string_views(expected@), string_views(actual@)) {
            None => r is Ok,
            Some(m) => r matches Err(AdapterError::Inventory(x)) && x@ == m,
        },
        r is Ok <==> (expected@.len() <= MAX_INVENTORY && !has_duplicates(string_views(expected@))
            && actual@.len() <= MAX_INVENTORY && !has_duplicates(string_views(actual@))
            && crate::inventory::same_values(string_views(expected@), string_views(actual@))),
        r matches Err(e) ==> e is Inventory,
        (expected@.len() > MAX_INVENTORY || has_duplicates(string_views(expected@))) ==> (r matches Err(
            AdapterError::Inventory(m),
        ) && m@ == label@ + if expected@.len() > MAX_INVENTORY {
            " exceeds 100000 items"@
        } else {
            " contains duplicates"@
        }),
        !(expected@.len() > MAX_INVENTORY || has_duplicates(string_views(expected@))) && (actual@.len()
            > MAX_INVENTORY || has_duplicates(string_views(actual@))) ==> (r matches Err(AdapterError::Inventory(m))
            && m@ == label@ + if actual@.len() > MAX_INVENTORY {
            " exceeds 100000 items"@
        } else {
            " contains duplicates"@
        }),
        (expected@.len() <= MAX_INVENTORY && !has_duplicates(string_views(expected@))
            && actual@.len() <= MAX_INVENTORY && !has_duplicates(string_views(actual@))
            && !crate::inventory::same_values(string_views(expected@), string_views(actual@)))
            ==> (r matches Err(AdapterError::Inventory(m)) && m@ == crate::aeneas::mismatch_message(
            label@,
            missing_from(sorted_set(string_views(expected@)), sorted_set(string_views(actual@))),
            missing_from(sorted_set(string_views(actual@)), sorted_set(string_views(expected@))),
        )),
{
    let e = char_lists(expected);
    let a = char_lists(actual);
    match crate::inventory::compare_sets(&e, &a) {
        Ok(()) => Ok(()),
        Err(crate::inventory::SetMismatch::Invalid(crate::inventory::InventoryFault::TooLarge)) => Err(AdapterError::Inventory(prefixed(label, " exceeds 100000 items"))),
        Err(crate::inventory::SetMismatch::Invalid(crate::inventory::InventoryFault::Duplicates)) => Err(AdapterError::Inventory(prefixed(label, " contains duplicates"))),
        Err(crate::inventory::SetMismatch::Differ { missing, extra }) => Err(AdapterError::Inventory(crate::aeneas::mismatch(label, &missing, &extra))),
    }
}

/// Accepts a manifest list that is within the inventory bound and repeats
/// no value.
pub fn require_unique(label: &str, values: &Vec<String>) -> (r: Result<(), AdapterError>)
    ensures
        r is Ok <==> (values@.len() <= MAX_INVENTORY && !has_duplicates(string_views(values@))),
        r matches Err(e) ==> (e matches AdapterError::Unit(m) && m@ == label@
            + " is too large or contains duplicates"@),
{
    let lists = char_lists(values);
    match crate::inventory::sorted_unique_chars(&lists) {
        Ok(_) => Ok(()),
        Err(_) => Err(AdapterError::Unit(prefixed(label, " is too large or contains duplicates"))),
    }
}

/// Accepts a relative path of ordinary components, or names it unsafe.
pub fn validate_relative_path(path: &str) -> (r: Result<(), AdapterError>)
    ensures
        r is Ok <==> crate::paths::is_relative_path(path@),
        r matches Err(e) ==> (e matches AdapterError::UnsafePath(p) && p@ == path@),
{
    if crate::paths::relative_path_ok(path) {
        Ok(())
    } else {
        Err(AdapterError::UnsafePath(path.to_owned()))
    }
}

/// Whether a path lies in a directory that shadow copies leave out.
pub fn should_exclude(path: &str) -> (b: bool)
    ensures
        b == crate::paths::has_segment_in(path@, crate::aeneas::excluded_names()),
{
    crate::aeneas::should_exclude(path)
}

/// Fails a run whose output was cut short or whose exit status is not 0.
pub fn ensure_success(spec: &ProcessSpec, output: &ProcessOutput) -> (r: Result<(), AdapterError>)
    ensures
        r is Ok <==> (!output.truncated && output.status == Some(0i32)),
        output.truncated ==> (r matches Err(AdapterError::Inventory(m)) && m@ == "`"@ + spec.program@
            + "` output exceeded 8 MiB"@),
        !output.truncated && output.status != Some(0i32) ==> (r matches Err(
            AdapterError::ToolFailed(m),
        ) && m@ == failed_run_message(
            spec.program@,
            string_views(spec.args@),
            output.status,
            failure_detail(output.stdout@, output.stderr@),
        )),
{
    if output.truncated {
        return Err(AdapterError::Inventory(framed("`", spec.program.as_str(), "` output exceeded 8 MiB")));
    }
    if output.status != Some(0i32) {
        return Err(AdapterError::ToolFailed(failed_run(spec.program.as_str(), &spec.args, output)));
    }
    Ok(())
}

/// A successful run that printed nothing at all.
pub fn ensure_silent_success(spec: &ProcessSpec, output: &ProcessOutput) -> (r: Result<(), AdapterError>)
    ensures
        r is Ok <==> (!output.truncated && output.status == Some(0i32) && output.stdout@.len() == 0
            && output.stderr@.len() == 0),
        !output.truncated && output.status == Some(0i32) && !(output.stdout@.len() == 0
            && output.stderr@.len() == 0) ==> (r matches Err(AdapterError::Inventory(m)) && m@
            == "transcription driver must emit only its exact output file; stdout and stderr must be empty"@),
        (output.truncated || output.status != Some(0i32)) ==> (r matches Err(e)
            && crate::rust_session::run_failure(spec.program@, string_views(spec.args@), *output, e)),
{
    ensure_success(spec, output)?;
    if output.stdout.len() != 0 || output.stderr.len() != 0 {
        return Err(AdapterError::Inventory("transcription driver must emit only its exact output file; stdout and stderr must be empty".to_owned()));
    }
    Ok(())
}

/// The timing markers of Cargo and pytest output.
pub open spec fn timing_markers() -> Seq<Seq<char>> {
    seq!["; finished in "@, " passed in "@, " tests collected in "@]
}

/// Masks the duration that follows a timing marker.
pub fn normalize_timing_line(line: &str) -> (out: String)
    ensures
        out@ == timing_spec(line@, timing_markers()),
{
    let markers = crate::names::markers_of(&["; finished in ", " passed in ", " tests collected in "]);
    proof {
        assert(views(markers@) =~= timing_markers());
    }
    let chars = chars_of(line);
    let out = normalize_timing_with(chars.as_slice(), &markers);
    string_of(out.as_slice())
}

/// The replacements for a test run: both project roots become `$PROJECT`
/// and, when the shadow root has a parent, that scratch workspace becomes
/// `$PROOFBOUND_WORK`.
pub open spec fn output_replacements(
    shadow_root: Seq<char>,
    project_root: Seq<char>,
    workspace: Option<Seq<char>>,
) -> Seq<(Seq<char>, Seq<char>)> {
    let base = seq![(shadow_root, "$PROJECT"@), (project_root, "$PROJECT"@)];
    match workspace {
        Some(w) => base.push((w, "$PROOFBOUND_WORK"@)),
        None => base,
    }
}

/// The normalized output of a test run, as UTF-8 bytes; `workspace` is
/// the parent directory of the shadow root, if it has one.
pub fn normalize_output(
    stdout: &[u8],
    stderr: &[u8],
    shadow_root: &str,
    project_root: &str,
    workspace: Option<&str>,
) -> (out: Vec<u8>)
    ensures
        out@ == vstd::utf8::encode_utf8(
            normalized_text(
                stdout@,
                stderr@,
                output_replacements(
                    shadow_root@,
                    project_root@,
                    match workspace {
                        Some(w) => Some(w@),
                        None => None,
                    },
                ),
                timing_markers(),
            ),
        ),
{
    let markers = crate::names::markers_of(&["; finished in ", " passed in ", " tests collected in "]);
    let mut subs: Vec<(Vec<char>, Vec<char>)> = Vec::new();
    subs.push((chars_of(shadow_root), chars_of("$PROJECT")));
    subs.push((chars_of(project_root), chars_of("$PROJECT")));
    match workspace {
        Some(w) => {
            subs.push((chars_of(w), chars_of("$PROOFBOUND_WORK")));
        },
        None => {},
    }
    proof {
        assert(views(markers@) =~= timing_markers());
        assert(pair_views(subs@) =~= output_replacements(
            shadow_root@,
            project_root@,
            match workspace {
                Some(w) => Some(w@),
                None => None,
            },
        ));
    }
    normalize_output_with(stdout, stderr, &subs, &markers)
}

/// The scratch-directory marker of this adapter.
pub open spec fn temp_marker() -> Seq<char> {
    "/proofbound-test-"@
}

/// Rewrites a path inside this adapter's scratch directory to its logical
/// spelling.
pub fn logicalize_temp_path(value: &str) -> (out: String)
    ensures
        out@ == logicalize_spec(value@, temp_marker()),
{
    logicalize_with(value, "/proofbound-test-")
}

/// Keeps at most 8192 characters of a message.
pub fn truncate_message(message: &str) -> (out: String)
    ensures
        out@ == truncated(message@, MAX_MESSAGE_CHARS as nat),
{
    truncate_chars(message, MAX_MESSAGE_CHARS)
}

} // verus!
