//! The TypeScript (Node) test adapter: its failures and the decisions it
//! makes about test identities, package subjects and tool output.
use vstd::prelude::*;
use crate::aeneas::{framed, prefixed};
use crate::names::{all_chars_in, all_in, is_dec, is_lower, CharClass};
use crate::inventory::seq_lt;
use crate::normalize::{truncate_chars, truncated};
use crate::process::{Diagnostic, ProcessOutput, MAX_MESSAGE_CHARS};
use crate::text::{
    chars_of, split, split_of, split_once, split_once_of, string_of, string_views, views,
};

verus! {

pub const MAX_REQUEST_BYTES: u64 = 2097152;

/// Why a Node request failed.
#[derive(Clone, Debug, PartialEq, Eq)]
pub enum NodeError {
    Io(String),
    ToolUnavailable { tool: String, source: String },
    Request(String),
    Unit(String),
    Unsupported(String),
    UnsafePath(String),
    Inventory(String),
    ToolFailed(String),
    Budget(String),
    Internal(String),
}

impl NodeError {
    /// The stable diagnostic code of each failure class.
    pub open spec fn code_spec(&self) -> Seq<char> {
        match *self {
            NodeError::ToolUnavailable { .. } => "PB-NODE-1001"@,
            NodeError::Unsupported(_) => "PB-NODE-1002"@,
            NodeError::Request(_) => "PB-NODE-1003"@,
            NodeError::Unit(_) => "PB-NODE-1004"@,
            NodeError::UnsafePath(_) => "PB-NODE-1005"@,
            NodeError::Inventory(_) => "PB-NODE-1006"@,
            NodeError::ToolFailed(_) => "PB-NODE-1007"@,
            NodeError::Budget(_) => "PB-NODE-1008"@,
            NodeError::Io(_) | NodeError::Internal(_) => "PB-NODE-1099"@,
        }
    }

    /// The stable diagnostic code.
    pub fn code(&self) -> (s: &'static str)
        ensures
            s@ == self.code_spec(),
    {
        match self {
            NodeError::ToolUnavailable { .. } => "PB-NODE-1001",
            NodeError::Unsupported(_) => "PB-NODE-1002",
            NodeError::Request(_) => "PB-NODE-1003",
            NodeError::Unit(_) => "PB-NODE-1004",
            NodeError::UnsafePath(_) => "PB-NODE-1005",
            NodeError::Inventory(_) => "PB-NODE-1006",
            NodeError::ToolFailed(_) => "PB-NODE-1007",
            NodeError::Budget(_) => "PB-NODE-1008",
            NodeError::Io(_) | NodeError::Internal(_) => "PB-NODE-1099",
        }
    }

    /// What the operator should do about the failure.
    pub open spec fn remediation_spec(&self) -> Seq<char> {
        match *self {
            NodeError::ToolUnavailable { .. } => "install Node and npm and keep the registered package dependencies available"@,
            NodeError::Unsupported(_) => "use a capability admitted by Specification 0003 or revise the specification"@,
            NodeError::Request(_) => "send canonical proofbound-adapter-protocol/1 JSON"@,
            NodeError::Unit(_) => "use a strict typed node-test evidence unit"@,
            NodeError::UnsafePath(_) => "use regular repository-relative files without symlink escapes"@,
            NodeError::Inventory(_) => "make the registered inventory exactly match tool metadata"@,
            NodeError::ToolFailed(_) => "reproduce the exact typed operation and fix its failure"@,
            NodeError::Budget(_) => "review the workload and raise the registered budget if justified"@,
            NodeError::Io(_) | NodeError::Internal(_) => "inspect the diagnostic and retry from a clean checkout"@,
        }
    }

    /// What the operator should do about the failure.
    pub fn remediation(&self) -> (s: &'static str)
        ensures
            s@ == self.remediation_spec(),
    {
        match self {
            NodeError::ToolUnavailable { .. } => "install Node and npm and keep the registered package dependencies available",
            NodeError::Unsupported(_) => "use a capability admitted by Specification 0003 or revise the specification",
            NodeError::Request(_) => "send canonical proofbound-adapter-protocol/1 JSON",
            NodeError::Unit(_) => "use a strict typed node-test evidence unit",
            NodeError::UnsafePath(_) => "use regular repository-relative files without symlink escapes",
            NodeError::Inventory(_) => "make the registered inventory exactly match tool metadata",
            NodeError::ToolFailed(_) => "reproduce the exact typed operation and fix its failure",
            NodeError::Budget(_) => "review the workload and raise the registered budget if justified",
            NodeError::Io(_) | NodeError::Internal(_) => "inspect the diagnostic and retry from a clean checkout",
        }
    }

    /// The human-readable sentence for the failure.
    pub open spec fn message_spec(&self) -> Seq<char> {
        match *self {
            NodeError::Io(m) => "I/O error: "@ + m@,
            NodeError::ToolUnavailable { tool, source } => "tool `"@ + tool@ + "` is unavailable: "@
                + source@,
            NodeError::Request(m) => "invalid request: "@ + m@,
            NodeError::Unit(m) => "invalid Node evidence unit: "@ + m@,
            NodeError::Unsupported(m) => "unsupported Node capability: "@ + m@,
            NodeError::UnsafePath(p) => "unsafe path `"@ + p@ + "`"@,
            NodeError::Inventory(m) => "Node inventory mismatch: "@ + m@,
            NodeError::ToolFailed(m) => "Node tool failed: "@ + m@,
            NodeError::Budget(m) => "resource budget exceeded: "@ + m@,
            NodeError::Internal(m) => "internal adapter error: "@ + m@,
        }
    }

    /// The human-readable sentence for the failure.
    pub fn message(&self) -> (s: String)
        ensures
            s@ == self.message_spec(),
    {
        match self {
            NodeError::Io(m) => prefixed("I/O error: ", m.as_str()),
            NodeError::ToolUnavailable { tool, source } => {
                let mut s = framed("tool `", tool.as_str(), "` is unavailable: ");
                s.append(source.as_str());
                s
            },
            NodeError::Request(m) => prefixed("invalid request: ", m.as_str()),
            NodeError::Unit(m) => prefixed("invalid Node evidence unit: ", m.as_str()),
            NodeError::Unsupported(m) => prefixed("unsupported Node capability: ", m.as_str()),
            NodeError::UnsafePath(p) => framed("unsafe path `", p.as_str(), "`"),
            NodeError::Inventory(m) => prefixed("Node inventory mismatch: ", m.as_str()),
            NodeError::ToolFailed(m) => prefixed("Node tool failed: ", m.as_str()),
            NodeError::Budget(m) => prefixed("resource budget exceeded: ", m.as_str()),
            NodeError::Internal(m) => prefixed("internal adapter error: ", m.as_str()),
        }
    }

    /// The protocol diagnostic: code, message cut to 8192 characters, the
    /// unsafe path if any, and the remediation.
    pub fn diagnostic(&self) -> (d: Diagnostic)
        ensures
            d.code@ == self.code_spec(),
            d.message@ == truncated(self.message_spec(), MAX_MESSAGE_CHARS as nat),
            (d.path is Some) <==> (self is UnsafePath),
            self matches NodeError::UnsafePath(p) ==> d.path matches Some(q) && q@ == p@,
            d.remediation matches Some(r) && r@ == self.remediation_spec(),
    {
        let message = self.message();
        let path = match self {
            NodeError::UnsafePath(p) => Some(p.as_str().to_owned()),
            _ => None,
        };
        Diagnostic {
            code: self.code().to_owned(),
            message: truncate_chars(message.as_str(), MAX_MESSAGE_CHARS),
            path,
            remediation: Some(self.remediation().to_owned()),
        }
    }
}

} // verus!

verus! {

/// A character that a Node path may not hold: a backslash or a glob
/// metacharacter.
pub open spec fn is_glob_char(c: char) -> bool {
    c == '\\' || c == '*' || c == '?' || c == '[' || c == ']' || c == '{' || c == '}'
}

/// A repository-relative Node path: 1 to 4096 printable ASCII characters
/// without backslashes or glob metacharacters, whose `/`-separated segments
/// are all nonempty, none starting with `-`, none `..`, and the first not
/// `.`.
pub open spec fn is_node_path(s: Seq<char>) -> bool {
    &&& 0 < s.len() <= 4096
    &&& all_in(s, CharClass::Printable)
    &&& forall|i: int| 0 <= i < s.len() ==> !is_glob_char(#[trigger] s[i])
    &&& crate::paths::segments(s)[0] != "."@
    &&& forall|k: int|
        0 <= k < crate::paths::segments(s).len() ==> #[trigger] crate::paths::segments(s)[k] != ".."@
            && crate::paths::segments(s)[k].len() > 0 && crate::paths::segments(s)[k][0] != '-'
}

fn segments_ok(segs: &Vec<Vec<char>>) -> (b: bool)
    ensures
        b == forall|k: int|
            0 <= k < segs@.len() ==> #[trigger] views(segs@)[k] != ".."@ && views(segs@)[k].len() > 0
                && views(segs@)[k][0] != '-',
{
    let dots = chars_of("..");
    proof {
        reveal_strlit("..");
    }
    let mut k: usize = 0;
    while k < segs.len()
        invariant
            k <= segs@.len(),
            dots@ == ".."@,
            dots@.len() == 2,
            forall|j: int|
                0 <= j < k ==> #[trigger] views(segs@)[j] != ".."@ && views(segs@)[j].len() > 0
                    && views(segs@)[j][0] != '-',
        decreases segs@.len() - k,
    {
        let seg = segs[k].as_slice();
        proof {
            assert(views(segs@)[k as int] == seg@);
        }
        if seg.len() == 0 || seg[0] == '-' {
            return false;
        }
        if seg.len() == 2 && crate::text::matches_at(seg, dots.as_slice(), 0) {
            proof {
                assert(seg@.subrange(0, 2) =~= seg@);
            }
            return false;
        }
        proof {
            if seg@ == ".."@ {
                assert(seg@.subrange(0, 2) =~= seg@);
            }
        }
        k = k + 1;
    }
    true
}

/// Accepts a repository-relative Node path, or names it unsafe.
pub fn validate_relative_path(value: &str) -> (r: Result<(), NodeError>)
    ensures
        r is Ok <==> is_node_path(value@),
        r matches Err(e) ==> (e matches NodeError::UnsafePath(p) && p@ == value@),
{
    let s = chars_of(value);
    if s.len() == 0 || s.len() > 4096 || !all_chars_in(s.as_slice(), 0, CharClass::Printable) {
        proof {
            assert(s@.skip(0) =~= s@);
        }
        return Err(NodeError::UnsafePath(value.to_owned()));
    }
    proof {
        assert(s@.skip(0) =~= s@);
    }
    let mut i: usize = 0;
    while i < s.len()
        invariant
            s@ == value@,
            i <= s@.len(),
            forall|j: int| 0 <= j < i ==> !is_glob_char(#[trigger] s@[j]),
        decreases s@.len() - i,
    {
        let c = s[i];
        if c == '\\' || c == '*' || c == '?' || c == '[' || c == ']' || c == '{' || c == '}' {
            proof {
                assert(is_glob_char(s@[i as int]));
            }
            return Err(NodeError::UnsafePath(value.to_owned()));
        }
        i = i + 1;
    }
    let segs = crate::paths::segments_of(s.as_slice());
    proof {
        assert(views(segs@)[0] == segs@[0]@);
    }
    let first = segs[0].as_slice();
    let single_dot = first.len() == 1 && first[0] == '.';
    proof {
        reveal_strlit(".");
        if first@ == "."@ {
            assert(first@.len() == 1 && first@[0] == '.');
        }
        if single_dot {
            assert(first@ =~= "."@);
        }
    }
    if single_dot || !segments_ok(&segs) {
        return Err(NodeError::UnsafePath(value.to_owned()));
    }
    Ok(())
}

/// A Vitest test: its file and its full name.
#[derive(Clone, Debug, PartialEq, Eq)]
pub struct VitestNode {
    pub file: String,
    pub name: String,
}

impl VitestNode {
    /// `FILE::NAME`.
    pub fn id(&self) -> (s: String)
        ensures
            s@ == self.file@ + "::"@ + self.name@,
    {
        framed(self.file.as_str(), "::", self.name.as_str())
    }
}

/// A safe Vitest test name: 1 to 1024 printable ASCII characters, not
/// starting with `-`.
pub open spec fn is_test_name(s: Seq<char>) -> bool {
    0 < s.len() <= 1024 && all_in(s, CharClass::Printable) && s[0] != '-'
}

/// Accepts a Vitest test with a safe path and name.
pub fn validate_node(node: &VitestNode) -> (r: Result<(), NodeError>)
    ensures
        !is_node_path(node.file@) ==> (r matches Err(NodeError::UnsafePath(p)) && p@ == node.file@),
        is_node_path(node.file@) && !is_test_name(node.name@) ==> (r matches Err(
            NodeError::Inventory(m),
        ) && m@ == "vitest node `"@ + node.file@ + "::"@ + node.name@ + "` has an unsafe test name"@),
        r is Ok <==> (is_node_path(node.file@) && is_test_name(node.name@)),
{
    validate_relative_path(node.file.as_str())?;
    let n = chars_of(node.name.as_str());
    proof {
        assert(n@.skip(0) =~= n@);
    }
    if n.len() == 0 || n.len() > 1024 || !all_chars_in(n.as_slice(), 0, CharClass::Printable)
        || n[0] == '-' {
        let mut m = "vitest node `".to_owned();
        m.append(node.id().as_str());
        m.append("` has an unsafe test name");
        return Err(NodeError::Inventory(m));
    }
    Ok(())
}

/// Parses a registered `FILE::NAME` Vitest identity.
pub fn parse_node_id(value: &str) -> (r: Result<VitestNode, NodeError>)
    ensures
        split_once(value@, "::"@) is None ==> (r matches Err(NodeError::Inventory(m)) && m@
            == "vitest node `"@ + value@ + "` must be FILE::NAME"@),
        split_once(value@, "::"@) matches Some((file, name)) ==> ((r is Ok <==> (is_node_path(file)
            && is_test_name(name))) && (r matches Ok(node) ==> node.file@ == file && node.name@
            == name) && (!is_node_path(file) ==> (r matches Err(NodeError::UnsafePath(p)) && p@
            == file)) && (is_node_path(file) && !is_test_name(name) ==> (r matches Err(
            NodeError::Inventory(m),
        ) && m@ == "vitest node `"@ + file + "::"@ + name + "` has an unsafe test name"@))),
{
    let s = chars_of(value);
    let sep = chars_of("::");
    match split_once_of(s.as_slice(), sep.as_slice()) {
        None => Err(NodeError::Inventory(framed("vitest node `", value, "` must be FILE::NAME"))),
        Some((file, name)) => {
            let node = VitestNode { file: string_of(file.as_slice()), name: string_of(name.as_slice()) };
            validate_node(&node)?;
            Ok(node)
        },
    }
}

/// The characters that `regex_escape` prefixes with a backslash.
pub open spec fn is_regex_meta(c: char) -> bool {
    c == '.' || c == '+' || c == '*' || c == '?' || c == '^' || c == '$' || c == '(' || c == ')'
        || c == '[' || c == ']' || c == '{' || c == '}' || c == '|' || c == '\\'
}

/// Each regular-expression metacharacter preceded by a backslash.
pub open spec fn regex_escaped(s: Seq<char>) -> Seq<char>
    decreases s.len(),
{
    if s.len() == 0 {
        Seq::empty()
    } else if is_regex_meta(s.last()) {
        regex_escaped(s.drop_last()) + seq!['\\', s.last()]
    } else {
        regex_escaped(s.drop_last()).push(s.last())
    }
}

/// Escapes a literal for use in a Vitest name pattern.
pub fn regex_escape(value: &str) -> (out: String)
    ensures
        out@ == regex_escaped(value@),
{
    let s = chars_of(value);
    let mut out: Vec<char> = Vec::new();
    let mut i: usize = 0;
    while i < s.len()
        invariant
            i <= s@.len(),
            out@ == regex_escaped(s@.take(i as int)),
        decreases s@.len() - i,
    {
        let c = s[i];
        proof {
            let t = s@.take(i + 1);
            assert(t.drop_last() =~= s@.take(i as int));
            assert(t.last() == c);
        }
        let ghost before = out@;
        if c == '.' || c == '+' || c == '*' || c == '?' || c == '^' || c == '$' || c == '(' || c
            == ')' || c == '[' || c == ']' || c == '{' || c == '}' || c == '|' || c == '\\' {
            out.push('\\');
            proof {
                assert(out@ =~= before.push('\\'));
            }
        }
        out.push(c);
        proof {
            if is_regex_meta(c) {
                assert(out@ =~= before + seq!['\\', c]);
            } else {
                assert(out@ =~= before.push(c));
            }
        }
        i = i + 1;
    }
    proof {
        assert(s@.take(s@.len() as int) =~= s@);
    }
    string_of(out.as_slice())
}

/// Escaping distributes over concatenation: each character is escaped on
/// its own.
pub proof fn lemma_regex_escape_concatenates(a: Seq<char>, b: Seq<char>)
    ensures
        regex_escaped(a + b) == regex_escaped(a) + regex_escaped(b),
    decreases b.len(),
{
    if b.len() == 0 {
        assert(a + b =~= a);
    } else {
        lemma_regex_escape_concatenates(a, b.drop_last());
        assert((a + b).drop_last() =~= a + b.drop_last());
        assert((a + b).last() == b.last());
        if is_regex_meta(b.last()) {
            assert(regex_escaped(a) + regex_escaped(b) =~= regex_escaped(a) + regex_escaped(b.drop_last()) + seq![
                '\\',
                b.last(),
            ]);
        } else {
            assert(regex_escaped(a) + regex_escaped(b) =~= (regex_escaped(a) + regex_escaped(b.drop_last())).push(
                b.last(),
            ));
        }
    }
}

/// Each character a regular expression gives a meaning, `.` `+` `*` `?`
/// `^` `$` `(` `)` `[` `]` `{` `}` `|` and `\`, comes out behind a
/// backslash, so the pattern matches it literally; every other character
/// comes out as it is. With `lemma_regex_escape_concatenates`, this is the
/// whole of escaping.
pub proof fn lemma_regex_escape_of_a_character(c: char)
    ensures
        (c == '.' || c == '+' || c == '*' || c == '?' || c == '^' || c == '$' || c == '(' || c == ')' || c == '['
            || c == ']' || c == '{' || c == '}' || c == '|' || c == '\\') ==> regex_escaped(seq![c]) == seq!['\\', c],
        !(c == '.' || c == '+' || c == '*' || c == '?' || c == '^' || c == '$' || c == '(' || c == ')' || c == '['
            || c == ']' || c == '{' || c == '}' || c == '|' || c == '\\') ==> regex_escaped(seq![c]) == seq![c],
{
    let s = seq![c];
    assert(s.drop_last() =~= Seq::<char>::empty());
    assert(s.last() == c);
    assert(regex_escaped(Seq::<char>::empty()) == Seq::<char>::empty());
    assert(Seq::<char>::empty() + seq!['\\', c] =~= seq!['\\', c]);
    assert(Seq::<char>::empty().push(c) =~= seq![c]);
}

} // verus!

verus! {

/// ASCII letters mapped to lowercase, everything else kept.
pub open spec fn ascii_lower(s: Seq<char>) -> Seq<char> {
    s.map_values(|c: char| if 'A' <= c && c <= 'Z' { ((c as u32) + 32) as char } else { c })
}

/// ASCII letters mapped to uppercase, everything else kept.
pub open spec fn ascii_upper(s: Seq<char>) -> Seq<char> {
    s.map_values(|c: char| if 'a' <= c && c <= 'z' { ((c as u32) - 32) as char } else { c })
}

fn lower_char(c: char) -> (d: char)
    ensures
        d == if 'A' <= c && c <= 'Z' { ((c as u32) + 32) as char } else { c },
{
    if 'A' <= c && c <= 'Z' {
        let d = ((c as u32) + 32) as u8 as char;
        proof {
            assert(((c as u32) + 32) < 128);
        }
        d
    } else {
        c
    }
}

fn upper_char(c: char) -> (d: char)
    ensures
        d == if 'a' <= c && c <= 'z' { ((c as u32) - 32) as char } else { c },
{
    if 'a' <= c && c <= 'z' {
        let d = ((c as u32) - 32) as u8 as char;
        proof {
            assert(((c as u32) - 32) < 128);
        }
        d
    } else {
        c
    }
}

fn map_case(s: &[char], upper: bool) -> (out: Vec<char>)
    ensures
        out@ == if upper { ascii_upper(s@) } else { ascii_lower(s@) },
{
    let mut out: Vec<char> = Vec::new();
    let mut i: usize = 0;
    while i < s.len()
        invariant
            i <= s@.len(),
            out@ == if upper { ascii_upper(s@.take(i as int)) } else { ascii_lower(s@.take(i as int)) },
        decreases s@.len() - i,
    {
        let c = if upper { upper_char(s[i]) } else { lower_char(s[i]) };
        out.push(c);
        proof {
            if upper {
                assert(ascii_upper(s@.take(i + 1)) =~= ascii_upper(s@.take(i as int)).push(c));
            } else {
                assert(ascii_lower(s@.take(i + 1)) =~= ascii_lower(s@.take(i as int)).push(c));
            }
        }
        i = i + 1;
    }
    proof {
        assert(s@.take(s@.len() as int) =~= s@);
    }
    out
}

/// The dependency sources that are not reproducible registry packages.
pub open spec fn forbidden_prefixes() -> Seq<Seq<char>> {
    seq!["file:"@, "link:"@, "git:"@, "git+"@, "github:"@, "http:"@]
}

/// A dependency specification that names a local, linked, Git or plain
/// HTTP source (letters compared case-insensitively).
pub open spec fn is_forbidden_dependency(value: Seq<char>) -> bool {
    exists|k: int|
        0 <= k < 6 && crate::text::starts_with(ascii_lower(value), #[trigger] forbidden_prefixes()[k])
}

/// Whether a dependency specification names a local, linked, Git or plain
/// HTTP source (letters compared case-insensitively).
pub fn forbidden_dependency(value: &str) -> (b: bool)
    ensures
        b == is_forbidden_dependency(value@),
{
    let s = chars_of(value);
    let lower = map_case(s.as_slice(), false);
    let prefixes = crate::names::markers_of(&["file:", "link:", "git:", "git+", "github:", "http:"]);
    proof {
        assert(views(prefixes@) =~= forbidden_prefixes());
    }
    let mut k: usize = 0;
    while k < prefixes.len()
        invariant
            k <= prefixes@.len(),
            prefixes@.len() == 6,
            views(prefixes@) == forbidden_prefixes(),
            lower@ == ascii_lower(value@),
            forall|j: int|
                0 <= j < k ==> !crate::text::starts_with(lower@, #[trigger] forbidden_prefixes()[j]),
        decreases prefixes@.len() - k,
    {
        proof {
            assert(views(prefixes@)[k as int] == prefixes@[k as int]@);
        }
        if crate::text::matches_at(lower.as_slice(), prefixes[k].as_slice(), 0) {
            proof {
                assert(crate::text::starts_with(lower@, forbidden_prefixes()[k as int]));
            }
            return true;
        }
        k = k + 1;
    }
    false
}

/// A packed npm tarball name: 1 to 255 ASCII letters, digits, `.`, `_` or
/// `-`, not starting with `-`, ending in `.tgz`.
pub open spec fn is_tarball_name(s: Seq<char>) -> bool {
    &&& 0 < s.len() <= 255
    &&& s[0] != '-'
    &&& all_in(s, CharClass::Atom)
    &&& crate::text::ends_with(s, ".tgz"@)
}

/// Whether `value` is a safe tarball file name.
pub fn safe_filename(value: &str) -> (b: bool)
    ensures
        b == is_tarball_name(value@),
{
    let s = chars_of(value);
    let suffix = chars_of(".tgz");
    proof {
        reveal_strlit(".tgz");
        assert(s@.skip(0) =~= s@);
    }
    s.len() > 0 && s.len() <= 255 && s[0] != '-' && all_chars_in(s.as_slice(), 0, CharClass::Atom)
        && s.len() >= 4 && crate::text::matches_at(s.as_slice(), suffix.as_slice(), s.len() - 4)
}

/// A JavaScript identifier segment: a letter, `_` or `$`, then letters,
/// digits, `_` or `$`.
pub open spec fn is_js_ident(s: Seq<char>) -> bool {
    &&& s.len() > 0
    &&& (crate::names::is_upper(s[0]) || is_lower(s[0]) || s[0] == '_' || s[0] == '$')
    &&& all_in(s, CharClass::JsIdent)
}

/// An npm package name as a subject: 1 to 214 lowercase letters, digits,
/// `.`, `_` or `-`, starting with a letter or digit.
pub open spec fn is_npm_package(s: Seq<char>) -> bool {
    &&& 0 < s.len() <= 214
    &&& (is_lower(s[0]) || is_dec(s[0]))
    &&& all_in(s, CharClass::NpmName)
}

/// `npm:PACKAGE` or `npm:PACKAGE::EXPORT.PATH`.
pub open spec fn is_npm_subject(s: Seq<char>) -> bool {
    &&& crate::text::starts_with(s, "npm:"@)
    &&& match split_once(s.skip(4), "::"@) {
        None => is_npm_package(s.skip(4)),
        Some((package, export)) => is_npm_package(package) && export.len() > 0 && forall|k: int|
            0 <= k < split(export, "."@).len() ==> is_js_ident(#[trigger] split(export, "."@)[k]),
    }
}

fn npm_package_ok(p: &[char]) -> (b: bool)
    ensures
        b == is_npm_package(p@),
{
    proof {
        assert(p@.skip(0) =~= p@);
    }
    p.len() > 0 && p.len() <= 214 && (('a' <= p[0] && p[0] <= 'z') || ('0' <= p[0] && p[0] <= '9'))
        && all_chars_in(p, 0, CharClass::NpmName)
}

fn js_ident_ok(c: &[char]) -> (b: bool)
    ensures
        b == is_js_ident(c@),
{
    proof {
        assert(c@.skip(0) =~= c@);
    }
    c.len() > 0 && (('A' <= c[0] && c[0] <= 'Z') || ('a' <= c[0] && c[0] <= 'z') || c[0] == '_'
        || c[0] == '$') && all_chars_in(c, 0, CharClass::JsIdent)
}

/// Whether `value` names an npm package, optionally with an export path.
#[verifier::loop_isolation(false)]
pub fn valid_npm_subject(value: &str) -> (b: bool)
    ensures
        b == is_npm_subject(value@),
{
    let s = chars_of(value);
    let prefix = chars_of("npm:");
    proof {
        reveal_strlit("npm:");
    }
    if !crate::text::matches_at(s.as_slice(), prefix.as_slice(), 0) {
        return false;
    }
    let mut subject: Vec<char> = Vec::new();
    crate::text::extend_range(&mut subject, s.as_slice(), 4, s.len());
    proof {
        assert(subject@ =~= value@.skip(4));
    }
    let sep = chars_of("::");
    match split_once_of(subject.as_slice(), sep.as_slice()) {
        None => npm_package_ok(subject.as_slice()),
        Some((package, export)) => {
            if !npm_package_ok(package.as_slice()) || export.len() == 0 {
                return false;
            }
            let dot = chars_of(".");
            proof {
                reveal_strlit(".");
            }
            let parts = split_of(export.as_slice(), dot.as_slice());
            let mut k: usize = 0;
            while k < parts.len()
                invariant
                    k <= parts@.len(),
                    forall|j: int| 0 <= j < k ==> is_js_ident(#[trigger] views(parts@)[j]),
                decreases parts@.len() - k,
            {
                proof {
                    assert(views(parts@)[k as int] == parts@[k as int]@);
                }
                if !js_ident_ok(parts[k].as_slice()) {
                    return false;
                }
                k = k + 1;
            }
            true
        },
    }
}

/// Manifest collections are bounded sets in strictly increasing order
/// without empty members.
pub open spec fn is_strict_set(values: Seq<Seq<char>>) -> bool {
    &&& values.len() <= crate::inventory::MAX_INVENTORY
    &&& forall|i: int| 0 <= i < values.len() - 1 ==> crate::inventory::seq_lt(#[trigger] values[i], values[i + 1])
    &&& forall|i: int| 0 <= i < values.len() ==> #[trigger] values[i].len() > 0
}

/// Requires a manifest collection to be a bounded strict lexical set.
pub fn require_strict_set(values: &Vec<String>) -> (r: Result<(), NodeError>)
    ensures
        r is Ok <==> is_strict_set(string_views(values@)),
        r matches Err(e) ==> (e matches NodeError::Unit(m) && m@
            == "manifest collections must be bounded strict lexical sets"@),
{
    let lists = crate::text::char_lists(values);
    if lists.len() > crate::inventory::MAX_INVENTORY {
        return Err(NodeError::Unit("manifest collections must be bounded strict lexical sets".to_owned()));
    }
    let mut i: usize = 0;
    while i < lists.len()
        invariant
            lists@.len() <= crate::inventory::MAX_INVENTORY,
            views(lists@) == string_views(values@),
            i <= lists@.len(),
            forall|j: int| 0 <= j < i ==> #[trigger] views(lists@)[j].len() > 0,
            forall|j: int|
                0 <= j < i && j + 1 < lists@.len() ==> crate::inventory::seq_lt(
                    #[trigger] views(lists@)[j],
                    views(lists@)[j + 1],
                ),
        decreases lists@.len() - i,
    {
        proof {
            assert(views(lists@)[i as int] == lists@[i as int]@);
        }
        if lists[i].len() == 0 {
            return Err(NodeError::Unit("manifest collections must be bounded strict lexical sets".to_owned()));
        }
        if i + 1 < lists.len() {
            proof {
                assert(views(lists@)[i + 1] == lists@[i + 1]@);
            }
            if crate::inventory::compare_chars(lists[i].as_slice(), lists[i + 1].as_slice()) != -1 {
                return Err(NodeError::Unit("manifest collections must be bounded strict lexical sets".to_owned()));
            }
        }
        i = i + 1;
    }
    Ok(())
}

/// The markers of a secret-bearing variable name, matched after mapping
/// letters to uppercase.
pub open spec fn secret_markers() -> Seq<Seq<char>> {
    seq!["TOKEN"@, "SECRET"@, "PASSWORD"@, "CREDENTIAL"@, "PRIVATE"@, "AUTH"@]
}

/// Whether a variable name marks its value as secret.
pub fn is_secret_name(name: &str) -> (b: bool)
    ensures
        b == crate::names::contains_any(ascii_upper(name@), secret_markers()),
{
    let s = chars_of(name);
    let upper = map_case(s.as_slice(), true);
    let needles = crate::names::markers_of(&["TOKEN", "SECRET", "PASSWORD", "CREDENTIAL", "PRIVATE", "AUTH"]);
    proof {
        assert(views(needles@) =~= secret_markers());
    }
    crate::names::contains_any_of(upper.as_slice(), &needles)
}

/// The directory names that a Node shadow copy leaves out.
pub open spec fn excluded_names() -> Seq<Seq<char>> {
    seq![
        ".git"@,
        ".proofbound"@,
        "node_modules"@,
        "target"@,
        ".lake"@,
        "__pycache__"@,
        ".pytest_cache"@,
        ".mypy_cache"@,
        ".ruff_cache"@,
    ]
}

/// Whether a path lies in a directory that Node shadow copies leave out.
pub fn excluded_path(path: &str) -> (b: bool)
    ensures
        b == crate::paths::has_segment_in(path@, excluded_names()),
{
    let names = crate::names::markers_of(
        &[
            ".git",
            ".proofbound",
            "node_modules",
            "target",
            ".lake",
            "__pycache__",
            ".pytest_cache",
            ".mypy_cache",
            ".ruff_cache",
        ],
    );
    proof {
        assert(views(names@) =~= excluded_names());
    }
    crate::paths::has_segment_of(path, &names)
}

/// A semantic version as plain values: major, minor, patch, pre-release
/// and build metadata.
#[derive(Clone, Debug, PartialEq, Eq)]
pub struct SemanticVersion {
    pub major: u64,
    pub minor: u64,
    pub patch: u64,
    pub pre: String,
    pub build: String,
}

/// The plain values of a semantic version.
pub open spec fn version_view(v: SemanticVersion) -> (u64, u64, u64, Seq<char>, Seq<char>) {
    (v.major, v.minor, v.patch, v.pre@, v.build@)
}

/// What `semver::Version::parse` makes of a text: its major, minor and
/// patch numbers and its pre-release and build texts, or nothing.
pub uninterp spec fn semver_parse(text: Seq<char>) -> Option<(u64, u64, u64, Seq<char>, Seq<char>)>;

/// `semver::Version::parse`, with the version taken apart into plain values.
#[verifier::external_body]
fn parse_semver(text: &str) -> (r: Option<SemanticVersion>)
    ensures
        match r {
            Some(v) => semver_parse(text@) == Some(version_view(v)),
            None => semver_parse(text@) is None,
        },
{
    match semver::Version::parse(text) {
        Ok(v) => Some(
            SemanticVersion {
                major: v.major,
                minor: v.minor,
                patch: v.patch,
                pre: v.pre.as_str().to_owned(),
                build: v.build.as_str().to_owned(),
            },
        ),
        Err(_) => None,
    }
}

/// `s` without its leading `v` characters.
pub open spec fn strip_leading_v(s: Seq<char>) -> Seq<char>
    decreases s.len(),
{
    if s.len() > 0 && s[0] == 'v' {
        strip_leading_v(s.drop_first())
    } else {
        s
    }
}

/// The text of a version token that `semver` is asked to parse: without a
/// `vitest/` prefix and without leading `v`s.
pub open spec fn version_candidate(token: Seq<char>) -> Seq<char> {
    strip_leading_v(
        if token.len() >= 7 && token.take(7) == "vitest/"@ {
            token.skip(7)
        } else {
            token
        },
    )
}

/// The version of the first of `tokens` whose candidate parses.
pub open spec fn first_version(tokens: Seq<Seq<char>>) -> Option<(u64, u64, u64, Seq<char>, Seq<char>)>
    decreases tokens.len(),
{
    if tokens.len() == 0 {
        None
    } else if semver_parse(version_candidate(tokens[0])) is Some {
        semver_parse(version_candidate(tokens[0]))
    } else {
        first_version(tokens.drop_first())
    }
}

fn candidate_of(token: &[char]) -> (out: String)
    ensures
        out@ == version_candidate(token@),
{
    let prefix = chars_of("vitest/");
    proof {
        reveal_strlit("vitest/");
    }
    let mut start: usize = 0;
    if token.len() >= 7 && crate::text::matches_at(token, prefix.as_slice(), 0) {
        start = 7;
    }
    proof {
        if token@.len() >= 7 {
            assert(token@.subrange(0, 7) =~= token@.take(7));
        }
        assert(token@.skip(0) =~= token@);
    }
    let ghost base = token@.skip(start as int);
    let mut k: usize = start;
    while k < token.len() && token[k] == 'v'
        invariant
            start <= k <= token@.len(),
            strip_leading_v(base) == strip_leading_v(token@.skip(k as int)),
            base == token@.skip(start as int),
        decreases token@.len() - k,
    {
        proof {
            assert(token@.skip(k as int).drop_first() =~= token@.skip(k + 1));
        }
        k = k + 1;
    }
    let mut out: Vec<char> = Vec::new();
    crate::text::extend_range(&mut out, token, k, token.len());
    proof {
        assert(out@ =~= token@.skip(k as int));
    }
    string_of(out.as_slice())
}

/// The Vitest version in its `--version` line: the first whitespace
/// separated token that, without a `vitest/` prefix and leading `v`s, is a
/// semantic version.
pub fn parse_vitest_version(text: &str) -> (r: Result<SemanticVersion, NodeError>)
    ensures
        match first_version(crate::text::ascii_words(text@)) {
            Some(v) => (r matches Ok(x) && version_view(x) == v),
            None => (r matches Err(NodeError::Unsupported(m)) && m@ == "vitest reported unparseable version `"@
                + text@ + "`"@),
        },
{
    let chars = chars_of(text);
    let tokens = crate::text::ascii_words_of(chars.as_slice());
    let ghost ts = views(tokens@);
    proof {
        assert(ts.skip(0) =~= ts);
    }
    let mut i: usize = 0;
    while i < tokens.len()
        invariant
            i <= ts.len(),
            ts == views(tokens@),
            ts == crate::text::ascii_words(text@),
            first_version(ts) == first_version(ts.skip(i as int)),
        decreases ts.len() - i,
    {
        let candidate = candidate_of(tokens[i].as_slice());
        proof {
            assert(ts[i as int] == tokens@[i as int]@);
            assert(ts.skip(i as int)[0] == ts[i as int]);
            assert(ts.skip(i as int).drop_first() =~= ts.skip(i + 1));
        }
        match parse_semver(candidate.as_str()) {
            Some(v) => {
                return Ok(v);
            },
            None => {},
        }
        i = i + 1;
    }
    proof {
        assert(ts.skip(i as int) =~= Seq::<Seq<char>>::empty());
    }
    let mut m = "vitest reported unparseable version `".to_owned();
    m.append(text);
    m.append("`");
    Err(NodeError::Unsupported(m))
}

/// `s` without its trailing `\r` and `\n` characters.
pub open spec fn trim_end_newlines(s: Seq<char>) -> Seq<char>
    decreases s.len(),
{
    if s.len() > 0 && (s.last() == '\r' || s.last() == '\n') {
        trim_end_newlines(s.drop_last())
    } else {
        s
    }
}

/// Whether some character of `t` is a control character.
pub open spec fn has_control_char(t: Seq<char>) -> bool {
    exists|i: int| 0 <= i < t.len() && crate::names::is_control(#[trigger] t[i])
}

/// One nonempty line of at most 2048 bytes, without padding or control
/// characters.
pub open spec fn is_identity_line(t: Seq<char>) -> bool {
    &&& t.len() > 0
    &&& vstd::utf8::encode_utf8(t).len() <= 2048
    &&& !t.contains('\r')
    &&& !t.contains('\n')
    &&& crate::text::trim(t) == t
    &&& !has_control_char(t)
}

/// What a tool's `--version` output yields as its identity: one bounded,
/// unpadded line of stdout (or of stderr when stdout is empty).
pub open spec fn identity_result(stdout: Seq<u8>, stderr: Seq<u8>) -> Result<Seq<char>, Seq<char>> {
    let bytes = if stdout.len() == 0 {
        stderr
    } else {
        stdout
    };
    if !vstd::utf8::valid_utf8(bytes) {
        Err("identity is not UTF-8: "@ + crate::text::utf8_error_text(bytes))
    } else {
        let text = trim_end_newlines(vstd::utf8::decode_utf8(bytes));
        if !is_identity_line(text) {
            Err("tool identity must be one bounded unpadded line"@)
        } else {
            Ok(text)
        }
    }
}

fn has_control(s: &[char]) -> (b: bool)
    ensures
        b == exists|i: int| 0 <= i < s@.len() && crate::names::is_control(#[trigger] s@[i]),
{
    let mut i: usize = 0;
    while i < s.len()
        invariant
            i <= s@.len(),
            forall|k: int| 0 <= k < i ==> !crate::names::is_control(#[trigger] s@[k]),
        decreases s@.len() - i,
    {
        let c = s[i];
        if c <= '\u{1f}' || ('\u{7f}' <= c && c <= '\u{9f}') {
            proof {
                assert(crate::names::is_control(s@[i as int]));
            }
            return true;
        }
        i = i + 1;
    }
    false
}

/// A tool's identity line from its `--version` output.
pub fn single_line_identity(output: &ProcessOutput) -> (r: Result<String, NodeError>)
    ensures
        match identity_result(output.stdout@, output.stderr@) {
            Ok(t) => (r matches Ok(s) && s@ == t),
            Err(m) => (r matches Err(NodeError::Inventory(x)) && x@ == m),
        },
{
    let bytes = if output.stdout.len() == 0 {
        output.stderr.as_slice()
    } else {
        output.stdout.as_slice()
    };
    let decoded = match crate::text::utf8_text(bytes) {
        Ok(t) => t,
        Err(e) => {
            let mut m = "identity is not UTF-8: ".to_owned();
            m.append(e.as_str());
            return Err(NodeError::Inventory(m));
        },
    };
    let chars = chars_of(decoded.as_str());
    let mut n: usize = chars.len();
    proof {
        assert(chars@.take(chars@.len() as int) =~= chars@);
    }
    while n > 0 && (chars[n - 1] == '\r' || chars[n - 1] == '\n')
        invariant
            n <= chars@.len(),
            trim_end_newlines(chars@) == trim_end_newlines(chars@.take(n as int)),
        decreases n,
    {
        proof {
            assert(chars@.take(n as int).drop_last() =~= chars@.take(n - 1));
        }
        n = n - 1;
    }
    proof {
        if n > 0 {
            assert(chars@.take(n as int).last() == chars@[n - 1]);
        }
        assert(trim_end_newlines(chars@.take(n as int)) == chars@.take(n as int));
    }
    let mut kept: Vec<char> = Vec::new();
    crate::text::extend_range(&mut kept, chars.as_slice(), 0, n);
    proof {
        assert(chars@.take(chars@.len() as int) =~= chars@);
        assert(kept@ =~= chars@.take(n as int));
    }
    let text = string_of(kept.as_slice());
    let k = crate::text::trim_start_len(kept.as_slice());
    let mut rest: Vec<char> = Vec::new();
    crate::text::extend_range(&mut rest, kept.as_slice(), k, kept.len());
    let e = crate::text::trim_end_len(rest.as_slice());
    proof {
        assert(rest@ =~= kept@.skip(k as int));
        assert(crate::text::trim(kept@) == rest@.take(e as int));
    }
    let padded = k != 0 || e != rest.len();
    proof {
        if !padded {
            assert(rest@ =~= kept@);
            assert(rest@.take(e as int) =~= rest@);
        } else {
            assert(crate::text::trim(kept@).len() < kept@.len());
        }
    }
    let long = text.as_str().as_bytes().len() > 2048;
    proof {
        let t = trim_end_newlines(vstd::utf8::decode_utf8(bytes@));
        assert(kept@ == t);
        assert(text@ == t);
        assert(long == (vstd::utf8::encode_utf8(t).len() > 2048));
    }
    let newline = contains_newline(kept.as_slice());
    let control = has_control(kept.as_slice());
    proof {
        let t = trim_end_newlines(vstd::utf8::decode_utf8(bytes@));
        assert(newline == (t.contains('\r') || t.contains('\n')));
        assert(padded == (crate::text::trim(t) != t));
        assert(control == has_control_char(t));
        assert((kept.len() == 0) == (t.len() == 0));
    }
    proof {
        assert(bytes@ == (if output.stdout@.len() == 0 {
            output.stderr@
        } else {
            output.stdout@
        }));
        assert(vstd::utf8::valid_utf8(bytes@));
    }
    if kept.len() == 0 || long || newline || padded || control {
        proof {
            let t = trim_end_newlines(vstd::utf8::decode_utf8(bytes@));
            assert(!is_identity_line(t));
        }
        return Err(NodeError::Inventory("tool identity must be one bounded unpadded line".to_owned()));
    }
    Ok(text)
}

fn contains_newline(s: &[char]) -> (b: bool)
    ensures
        b == (s@.contains('\r') || s@.contains('\n')),
{
    let mut i: usize = 0;
    while i < s.len()
        invariant
            i <= s@.len(),
            forall|k: int| 0 <= k < i ==> s@[k] != '\r' && s@[k] != '\n',
        decreases s@.len() - i,
    {
        if s[i] == '\r' || s[i] == '\n' {
            proof {
                assert(s@[i as int] == s[i as int]);
            }
            return true;
        }
        i = i + 1;
    }
    false
}

/// The first line of a failed tool's diagnostics (stderr, or stdout when
/// stderr is empty), decoded leniently and cut to 2048 characters; a fixed
/// text when there is none.
pub open spec fn first_diagnostic_text(stdout: Seq<u8>, stderr: Seq<u8>) -> Seq<char> {
    let bytes = if stderr.len() == 0 {
        stdout
    } else {
        stderr
    };
    let ls = crate::text::lines(crate::text::lossy_utf8(bytes));
    truncated(
        if ls.len() > 0 {
            ls[0]
        } else {
            "no diagnostic"@
        },
        2048,
    )
}

/// The first diagnostic line of a failed tool run.
pub fn first_diagnostic(output: &ProcessOutput) -> (s: String)
    ensures
        s@ == first_diagnostic_text(output.stdout@, output.stderr@),
{
    let bytes = if output.stderr.len() == 0 {
        output.stdout.as_slice()
    } else {
        output.stderr.as_slice()
    };
    let text = crate::text::utf8_lossy(bytes);
    let chars = chars_of(text.as_str());
    let ls = crate::text::lines_of(chars.as_slice());
    let first = if ls.len() > 0 {
        proof {
            assert(views(ls@)[0] == ls@[0]@);
        }
        string_of(ls[0].as_slice())
    } else {
        "no diagnostic".to_owned()
    };
    truncate_chars(first.as_str(), 2048)
}

/// The digest a list of `(path, digest)` pairs gives `path` once collected
/// into a map: that of the last pair naming it.
pub open spec fn digest_of(pairs: Seq<(String, String)>, path: Seq<char>) -> Option<Seq<char>>
    decreases pairs.len(),
{
    if pairs.len() == 0 {
        None
    } else if pairs.last().0@ == path {
        Some(pairs.last().1@)
    } else {
        digest_of(pairs.drop_last(), path)
    }
}

/// A path that a mutation changed the wrong way: the target not at the
/// registered postimage, or left unchanged; any other path changed.
pub open spec fn changed_wrongly(
    before: Seq<(String, String)>,
    after: Seq<(String, String)>,
    target: Seq<char>,
    expected: Seq<char>,
    path: Seq<char>,
) -> bool {
    match (digest_of(before, path), digest_of(after, path)) {
        (Some(b), Some(a)) => if path == target {
            a != expected || a == b
        } else {
            a != b
        },
        _ => false,
    }
}

/// The least path a mutation changed the wrong way.
pub open spec fn least_changed_wrongly(
    before: Seq<(String, String)>,
    after: Seq<(String, String)>,
    target: Seq<char>,
    expected: Seq<char>,
) -> Seq<char> {
    choose|p: Seq<char>|
        changed_wrongly(before, after, target, expected, p) && forall|q: Seq<char>|
            #[trigger] changed_wrongly(before, after, target, expected, q) ==> !seq_lt(q, p)
}

/// Why a tree of source digests after a mutation is not the tree before it
/// with only the target changed, to the registered digest.
pub open spec fn tree_change_fault(
    before: Seq<(String, String)>,
    after: Seq<(String, String)>,
    target: Seq<char>,
    expected: Seq<char>,
) -> Option<Seq<char>> {
    if !(forall|p: Seq<char>| #[trigger] digest_of(before, p) is Some <==> digest_of(after, p) is Some) {
        Some("mutation changed the source path inventory"@)
    } else if exists|p: Seq<char>| changed_wrongly(before, after, target, expected, p) {
        let p = least_changed_wrongly(before, after, target, expected);
        if p == target {
            Some("mutation target does not have the registered postimage"@)
        } else {
            Some("mutation changed unregistered path `"@ + p + "`"@)
        }
    } else {
        None
    }
}

/// A path has a digest exactly when some pair names it.
proof fn lemma_digest_of_some(pairs: Seq<(String, String)>, path: Seq<char>)
    ensures
        digest_of(pairs, path) is Some <==> exists|i: int| 0 <= i < pairs.len() && #[trigger] pairs[i].0@ == path,
    decreases pairs.len(),
{
    if pairs.len() > 0 {
        lemma_digest_of_some(pairs.drop_last(), path);
        if exists|i: int| 0 <= i < pairs.len() && #[trigger] pairs[i].0@ == path {
            let i = choose|i: int| 0 <= i < pairs.len() && #[trigger] pairs[i].0@ == path;
            if i < pairs.len() - 1 {
                assert(pairs.drop_last()[i].0@ == path);
            }
        }
        if exists|i: int| 0 <= i < pairs.len() - 1 && #[trigger] pairs.drop_last()[i].0@ == path {
            let i = choose|i: int| 0 <= i < pairs.len() - 1 && #[trigger] pairs.drop_last()[i].0@ == path;
            assert(pairs[i].0@ == path);
        }
    }
}

/// The index of the last pair naming `path`.
fn last_pair(pairs: &Vec<(String, String)>, path: &str) -> (r: Option<usize>)
    ensures
        match r {
            None => digest_of(pairs@, path@) is None,
            Some(i) => i < pairs@.len() && digest_of(pairs@, path@) == Some(pairs@[i as int].1@),
        },
{
    let mut r: Option<usize> = None;
    let mut i: usize = 0;
    while i < pairs.len()
        invariant
            i <= pairs@.len(),
            match r {
                None => digest_of(pairs@.take(i as int), path@) is None,
                Some(j) => j < i && digest_of(pairs@.take(i as int), path@) == Some(pairs@[j as int].1@),
            },
        decreases pairs@.len() - i,
    {
        proof {
            let t = pairs@.take(i + 1);
            assert(t.drop_last() =~= pairs@.take(i as int));
            assert(t.last() == pairs@[i as int]);
        }
        if crate::text::str_equal(pairs[i].0.as_str(), path) {
            r = Some(i);
        }
        i = i + 1;
    }
    proof {
        assert(pairs@.take(pairs@.len() as int) =~= pairs@);
    }
    r
}

/// Whether every path of `a` is a path of `b`.
fn paths_within(a: &Vec<(String, String)>, b: &Vec<(String, String)>) -> (ok: bool)
    ensures
        ok <==> forall|p: Seq<char>| #[trigger] digest_of(a@, p) is Some ==> digest_of(b@, p) is Some,
{
    let mut i: usize = 0;
    while i < a.len()
        invariant
            i <= a@.len(),
            forall|j: int| 0 <= j < i ==> #[trigger] digest_of(b@, a@[j].0@) is Some,
        decreases a@.len() - i,
    {
        if last_pair(b, a[i].0.as_str()).is_none() {
            proof {
                lemma_digest_of_some(a@, a@[i as int].0@);
            }
            return false;
        }
        i = i + 1;
    }
    proof {
        assert forall|p: Seq<char>| #[trigger] digest_of(a@, p) is Some implies digest_of(b@, p) is Some by {
            lemma_digest_of_some(a@, p);
            let j = choose|j: int| 0 <= j < a@.len() && #[trigger] a@[j].0@ == p;
            assert(digest_of(b@, a@[j].0@) is Some);
        }
    }
    true
}

/// Checks that a mutation changed exactly one source path, `target`, to
/// the digest `expected_digest`, given the `(path, digest)` pairs of the
/// source tree before and after it.
pub fn verify_single_tree_change(
    before: &Vec<(String, String)>,
    after: &Vec<(String, String)>,
    target: &str,
    expected_digest: &str,
) -> (r: Result<(), NodeError>)
    ensures
        match tree_change_fault(before@, after@, target@, expected_digest@) {
            None => r is Ok,
            Some(m) => r matches Err(e) && e matches NodeError::ToolFailed(x) && x@ == m,
        },
{
    if !paths_within(before, after) || !paths_within(after, before) {
        return Err(NodeError::ToolFailed("mutation changed the source path inventory".to_owned()));
    }
    let ghost b = before@;
    let ghost a = after@;
    let ghost t = target@;
    let ghost x = expected_digest@;
    let mut best: Option<usize> = None;
    let mut i: usize = 0;
    while i < before.len()
        invariant
            b == before@,
            a == after@,
            t == target@,
            x == expected_digest@,
            i <= b.len(),
            forall|p: Seq<char>| #[trigger] digest_of(b, p) is Some <==> digest_of(a, p) is Some,
            best is None ==> forall|j: int| 0 <= j < i ==> !changed_wrongly(b, a, t, x, #[trigger] b[j].0@),
            best matches Some(k) ==> k < b.len() && changed_wrongly(b, a, t, x, b[k as int].0@) && forall|j: int|
                0 <= j < i && changed_wrongly(b, a, t, x, #[trigger] b[j].0@) ==> !seq_lt(b[j].0@, b[k as int].0@),
        decreases b.len() - i,
    {
        let path = before[i].0.as_str();
        proof {
            lemma_digest_of_some(b, path@);
        }
        let bi = last_pair(before, path);
        let ai = last_pair(after, path);
        let wrong = match (bi, ai) {
            (Some(bj), Some(aj)) => {
                let bd = before[bj].1.as_str();
                let ad = after[aj].1.as_str();
                if crate::text::str_equal(path, target) {
                    !crate::text::str_equal(ad, expected_digest) || crate::text::str_equal(ad, bd)
                } else {
                    !crate::text::str_equal(ad, bd)
                }
            },
            _ => false,
        };
        if wrong {
            let ghost old_best = best;
            let better = match best {
                None => true,
                Some(k) => {
                    let pc = crate::text::chars_of(path);
                    let kc = crate::text::chars_of(before[k].0.as_str());
                    crate::inventory::compare_chars(pc.as_slice(), kc.as_slice()) == -1
                },
            };
            if better {
                best = Some(i);
                proof {
                    assert forall|j: int|
                        0 <= j < i + 1 && changed_wrongly(b, a, t, x, #[trigger] b[j].0@) implies !seq_lt(
                        b[j].0@,
                        path@,
                    ) by {
                        if j < i {
                            if let Some(k) = old_best {
                                if seq_lt(b[j].0@, path@) {
                                    crate::inventory::lemma_lt_transitive(b[j].0@, path@, b[k as int].0@);
                                }
                            }
                        } else {
                            crate::inventory::lemma_lt_irreflexive(path@);
                        }
                    }
                }
            } else {
                proof {
                    if let Some(k) = old_best {
                        crate::inventory::lemma_lt_total(path@, b[k as int].0@);
                        if seq_lt(b[k as int].0@, path@) {
                            crate::inventory::lemma_lt_asymmetric(b[k as int].0@, path@);
                        }
                    }
                }
            }
        }
        i = i + 1;
    }
    match best {
        None => {
            proof {
                assert forall|p: Seq<char>| !changed_wrongly(b, a, t, x, p) by {
                    if changed_wrongly(b, a, t, x, p) {
                        lemma_digest_of_some(b, p);
                        let j = choose|j: int| 0 <= j < b.len() && #[trigger] b[j].0@ == p;
                        assert(!changed_wrongly(b, a, t, x, b[j].0@));
                    }
                }
            }
            Ok(())
        },
        Some(k) => {
            let path = before[k].0.as_str();
            proof {
                assert forall|q: Seq<char>| #[trigger] changed_wrongly(b, a, t, x, q) implies !seq_lt(q, path@) by {
                    lemma_digest_of_some(b, q);
                    let j = choose|j: int| 0 <= j < b.len() && #[trigger] b[j].0@ == q;
                    assert(changed_wrongly(b, a, t, x, b[j].0@));
                }
                let c = least_changed_wrongly(b, a, t, x);
                assert(changed_wrongly(b, a, t, x, c) && forall|q: Seq<char>|
                    #[trigger] changed_wrongly(b, a, t, x, q) ==> !seq_lt(q, c));
                crate::inventory::lemma_lt_total(c, path@);
            }
            if crate::text::str_equal(path, target) {
                Err(NodeError::ToolFailed("mutation target does not have the registered postimage".to_owned()))
            } else {
                Err(NodeError::ToolFailed(framed("mutation changed unregistered path `", path, "`")))
            }
        },
    }
}

} // verus!
