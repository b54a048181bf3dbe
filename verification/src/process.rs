//! Child processes as the adapters see them: a typed command and what it
//! printed, plus the protocol's diagnostic record.
use vstd::prelude::*;
use crate::normalize::{truncate_chars, truncated};
use crate::text::{
    chars_of, debug_list, debug_status, debug_strings, lossy_utf8, push_status, string_of,
    string_views, trim, trim_end_len, trim_start_len, utf8_lossy,
};

verus! {

/// A program and its arguments; never a shell line.
#[derive(Clone, Debug)]
pub struct ProcessSpec {
    pub program: String,
    pub args: Vec<String>,
}

/// What a finished child process produced, each stream kept up to the
/// adapter's output bound.
#[derive(Clone, Debug)]
pub struct ProcessOutput {
    pub status: Option<i32>,
    pub stdout: Vec<u8>,
    pub stderr: Vec<u8>,
    pub truncated: bool,
    pub duration_ms: u64,
}

/// One protocol diagnostic: a stable code, a message, the path concerned
/// and a remediation hint.
#[derive(Clone, Debug, PartialEq, Eq)]
pub struct Diagnostic {
    pub code: String,
    pub message: String,
    pub path: Option<String>,
    pub remediation: Option<String>,
}

/// The longest message a diagnostic carries, in characters.
pub const MAX_MESSAGE_CHARS: usize = 8192;

/// Both streams of a failed run, decoded leniently, labelled, trimmed, and
/// cut to the message bound.
pub open spec fn failure_detail(stdout: Seq<u8>, stderr: Seq<u8>) -> Seq<char> {
    truncated(
        trim("stdout:\n"@ + lossy_utf8(stdout) + "\nstderr:\n"@ + lossy_utf8(stderr)),
        MAX_MESSAGE_CHARS as nat,
    )
}

/// The detail of a failed run.
pub fn failure_detail_of(output: &ProcessOutput) -> (s: String)
    ensures
        s@ == failure_detail(output.stdout@, output.stderr@),
{
    let mut text = "stdout:\n".to_owned();
    text.append(utf8_lossy(output.stdout.as_slice()).as_str());
    text.append("\nstderr:\n");
    text.append(utf8_lossy(output.stderr.as_slice()).as_str());
    let chars = chars_of(text.as_str());
    let k = trim_start_len(chars.as_slice());
    let mut rest: Vec<char> = Vec::new();
    crate::text::extend_range(&mut rest, chars.as_slice(), k, chars.len());
    let n = trim_end_len(rest.as_slice());
    let mut trimmed: Vec<char> = Vec::new();
    crate::text::extend_range(&mut trimmed, rest.as_slice(), 0, n);
    proof {
        assert(rest@ =~= chars@.skip(k as int));
        assert(trimmed@ =~= rest@.take(n as int));
        assert(trimmed@ == trim(text@));
    }
    let joined = string_of(trimmed.as_slice());
    truncate_chars(joined.as_str(), MAX_MESSAGE_CHARS)
}

/// `program ["arg", ...] exited Some(n): detail`, the report of a failed run.
pub open spec fn failed_run_message(
    program: Seq<char>,
    args: Seq<Seq<char>>,
    status: Option<i32>,
    detail: Seq<char>,
) -> Seq<char> {
    program + " "@ + debug_strings(args) + " exited "@ + debug_status(status) + ": "@ + detail
}

/// Reports a failed run of `program` with `args`.
pub fn failed_run(program: &str, args: &Vec<String>, output: &ProcessOutput) -> (s: String)
    ensures
        s@ == failed_run_message(
            program@,
            string_views(args@),
            output.status,
            failure_detail(output.stdout@, output.stderr@),
        ),
{
    let mut s = program.to_owned();
    s.append(" ");
    s.append(debug_list(args).as_str());
    s.append(" exited ");
    push_status(&mut s, output.status);
    s.append(": ");
    s.append(failure_detail_of(output).as_str());
    s
}

} // verus!

verus! {

/// `flag v` for each value `v`, in order.
pub open spec fn flag_pairs(flag: Seq<char>, values: Seq<Seq<char>>) -> Seq<Seq<char>>
    decreases values.len(),
{
    if values.len() == 0 {
        Seq::empty()
    } else {
        flag_pairs(flag, values.drop_last()) + seq![flag, values.last()]
    }
}

/// Appends `flag v` for each value `v`.
pub fn push_flag_pairs(args: &mut Vec<String>, flag: &str, values: &Vec<String>)
    ensures
        string_views(final(args)@) == string_views(old(args)@) + flag_pairs(flag@, string_views(values@)),
{
    let mut i: usize = 0;
    while i < values.len()
        invariant
            i <= values@.len(),
            string_views(args@) == string_views(old(args)@) + flag_pairs(
                flag@,
                string_views(values@).take(i as int),
            ),
        decreases values@.len() - i,
    {
        let ghost before = string_views(args@);
        args.push(flag.to_owned());
        args.push(values[i].as_str().to_owned());
        proof {
            let t = string_views(values@).take(i + 1);
            assert(t.drop_last() =~= string_views(values@).take(i as int));
            assert(t.last() == values@[i as int]@);
            assert(string_views(args@) =~= before + seq![flag@, values@[i as int]@]);
        }
        i = i + 1;
    }
    proof {
        assert(string_views(values@).take(values@.len() as int) =~= string_views(values@));
    }
}

/// `base` joined with a relative `name`, as `Path::join` does on Unix.
pub open spec fn join_path(base: Seq<char>, name: Seq<char>) -> Seq<char> {
    if base.len() == 0 {
        name
    } else if base.last() == '/' {
        base + name
    } else {
        base + "/"@ + name
    }
}

/// Joins a relative `name` onto `base`.
pub fn joined_path(base: &str, name: &str) -> (s: String)
    ensures
        s@ == join_path(base@, name@),
{
    let b = chars_of(base);
    if b.len() == 0 {
        return name.to_owned();
    }
    let mut s = base.to_owned();
    if b[b.len() - 1] != '/' {
        s.append("/");
    }
    s.append(name);
    s
}

} // verus!
