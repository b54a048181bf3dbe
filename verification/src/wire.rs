//! Validation and deterministic CBOR encoding for `lean-expr-cbor/1`.
//!
//! The Lean audit transports unbounded `Nat` values as JSON strings. This
//! boundary accepts the subset representable by a CBOR `uint` without tags
//! (`u64`) and rejects every alternative spelling. Tags and binder metadata
//! are JSON integers because they are bounded protocol enums.
use crate::digest::{domain_digest, domain_digest_spec, Sha256Digest};
use crate::json::{JsonNumber, JsonValue};
use crate::text::{at_index, decimal, indexed_path, push_decimal, str_equal};
use vstd::prelude::*;
use vstd::string::*;
use vstd::utf8::encode_utf8;

verus! {

pub const STATEMENT_ENCODING: &'static str = "lean-expr-cbor/1";

pub const MAX_DEPTH: usize = 256;

pub const MAX_NODES: usize = 1000000;

pub const MAX_TEXT_BYTES: usize = 16777216;

pub const MAX_CBOR_BYTES: usize = 67108864;

/// Why a statement wire tree was refused.
#[allow(inconsistent_fields)]
#[derive(Debug, Clone, PartialEq, Eq)]
pub enum WireError {
    Type { path: String, expected: &'static str },
    Length { path: String, expected: usize, actual: usize },
    UnknownTag { path: String, kind: &'static str, tag: u64 },
    Natural { path: String, value: String },
    Name { path: String },
    TooDeep,
    TooManyNodes,
    TooMuchText,
    TooManyBytes,
}

/// The mathematical content of a [`WireError`].
#[allow(inconsistent_fields)]
pub enum WireFault {
    Type { path: Seq<char>, expected: Seq<char> },
    Length { path: Seq<char>, expected: nat, actual: nat },
    UnknownTag { path: Seq<char>, kind: Seq<char>, tag: u64 },
    Natural { path: Seq<char>, value: Seq<char> },
    Name { path: Seq<char> },
    TooDeep,
    TooManyNodes,
    TooMuchText,
    TooManyBytes,
}

impl View for WireError {
    type V = WireFault;

    open spec fn view(&self) -> WireFault {
        match self {
            WireError::Type { path, expected } => WireFault::Type {
                path: path@,
                expected: expected@,
            },
            WireError::Length { path, expected, actual } => WireFault::Length {
                path: path@,
                expected: *expected as nat,
                actual: *actual as nat,
            },
            WireError::UnknownTag { path, kind, tag } => WireFault::UnknownTag {
                path: path@,
                kind: kind@,
                tag: *tag,
            },
            WireError::Natural { path, value } => WireFault::Natural { path: path@, value: value@ },
            WireError::Name { path } => WireFault::Name { path: path@ },
            WireError::TooDeep => WireFault::TooDeep,
            WireError::TooManyNodes => WireFault::TooManyNodes,
            WireError::TooMuchText => WireFault::TooMuchText,
            WireError::TooManyBytes => WireFault::TooManyBytes,
        }
    }
}

/// The sentence that describes a wire refusal.
pub open spec fn fault_message(f: WireFault) -> Seq<char> {
    match f {
        WireFault::Type { path, expected } => path + ": expected "@ + expected,
        WireFault::Length { path, expected, actual } => path + ": expected array length "@ + decimal(
            expected,
        ) + ", found "@ + decimal(actual),
        WireFault::UnknownTag { path, kind, tag } => path + ": unknown "@ + kind + " tag "@ + decimal(
            tag as nat,
        ),
        WireFault::Natural { path, value } => path + ": non-canonical transported natural number '"@
            + value + "'"@,
        WireFault::Name { path } => path + ": empty or oversized Lean name"@,
        WireFault::TooDeep => "expression exceeds nesting limit 256"@,
        WireFault::TooManyNodes => "expression exceeds node limit 1000000"@,
        WireFault::TooMuchText => "expression exceeds text limit 16777216 bytes"@,
        WireFault::TooManyBytes => "canonical CBOR exceeds limit 67108864 bytes"@,
    }
}

impl WireError {
    /// The sentence that describes this refusal.
    pub fn message(&self) -> (s: String)
        ensures
            s@ == fault_message(self@),
    {
        match self {
            WireError::Type { path, expected } => {
                let mut s = path.as_str().to_owned();
                s.append(": expected ");
                s.append(expected);
                s
            },
            WireError::Length { path, expected, actual } => {
                let mut s = path.as_str().to_owned();
                s.append(": expected array length ");
                push_decimal(&mut s, *expected as u64);
                s.append(", found ");
                push_decimal(&mut s, *actual as u64);
                s
            },
            WireError::UnknownTag { path, kind, tag } => {
                let mut s = path.as_str().to_owned();
                s.append(": unknown ");
                s.append(kind);
                s.append(" tag ");
                push_decimal(&mut s, *tag);
                s
            },
            WireError::Natural { path, value } => {
                let mut s = path.as_str().to_owned();
                s.append(": non-canonical transported natural number '");
                s.append(value.as_str());
                s.append("'");
                s
            },
            WireError::Name { path } => {
                let mut s = path.as_str().to_owned();
                s.append(": empty or oversized Lean name");
                s
            },
            WireError::TooDeep => "expression exceeds nesting limit 256".to_owned(),
            WireError::TooManyNodes => "expression exceeds node limit 1000000".to_owned(),
            WireError::TooMuchText => "expression exceeds text limit 16777216 bytes".to_owned(),
            WireError::TooManyBytes => "canonical CBOR exceeds limit 67108864 bytes".to_owned(),
        }
    }
}

/// Encoder state: the bytes written and the node and text budgets consumed.
#[verifier::ext_equal]
pub struct EncState {
    pub bytes: Seq<u8>,
    pub nodes: nat,
    pub text: nat,
}

pub open spec fn empty_state() -> EncState {
    EncState { bytes: Seq::empty(), nodes: 0, text: 0 }
}

/// `n` big-endian bytes of `v`.
pub open spec fn be_bytes(v: nat, n: nat) -> Seq<u8>
    decreases n,
{
    if n == 0 {
        Seq::empty()
    } else {
        be_bytes(v / 256, (n - 1) as nat).push((v % 256) as u8)
    }
}

/// RFC 8949 head for `major` with the shortest argument encoding of `v`.
pub open spec fn cbor_head(major: u8, v: u64) -> Seq<u8> {
    let p = major as int * 32;
    if v <= 23 {
        seq![(p + v) as u8]
    } else if v <= 0xff {
        seq![(p + 24) as u8, v as u8]
    } else if v <= 0xffff {
        seq![(p + 25) as u8] + be_bytes(v as nat, 2)
    } else if v <= 0xffff_ffff {
        seq![(p + 26) as u8] + be_bytes(v as nat, 4)
    } else {
        seq![(p + 27) as u8] + be_bytes(v as nat, 8)
    }
}

/// Appends bytes if the output stays within the byte limit.
pub open spec fn put(st: EncState, b: Seq<u8>) -> Result<EncState, WireFault> {
    if st.bytes.len() + b.len() > MAX_CBOR_BYTES {
        Err(WireFault::TooManyBytes)
    } else {
        Ok(EncState { bytes: st.bytes + b, nodes: st.nodes, text: st.text })
    }
}

/// Appends a UTF-8 text string item, charging the text budget first.
pub open spec fn put_text(st: EncState, t: Seq<u8>) -> Result<EncState, WireFault> {
    if st.text + t.len() > MAX_TEXT_BYTES {
        Err(WireFault::TooMuchText)
    } else {
        let charged = EncState { bytes: st.bytes, nodes: st.nodes, text: st.text + t.len() };
        match put(charged, cbor_head(3, t.len() as u64)) {
            Err(e) => Err(e),
            Ok(s) => put(s, t),
        }
    }
}

/// Charges one tree node at the given nesting depth.
pub open spec fn put_node(st: EncState, depth: nat) -> Result<EncState, WireFault> {
    if depth > MAX_DEPTH {
        Err(WireFault::TooDeep)
    } else if st.nodes + 1 > MAX_NODES {
        Err(WireFault::TooManyNodes)
    } else {
        Ok(EncState { bytes: st.bytes, nodes: st.nodes + 1, text: st.text })
    }
}

/// Two item heads in a row: an array head of `len` and the unsigned tag.
pub open spec fn put_heads(st: EncState, len: u64, tag: u64) -> Result<EncState, WireFault> {
    match put(st, cbor_head(4, len)) {
        Err(e) => Err(e),
        Ok(s) => put(s, cbor_head(0, tag)),
    }
}

pub open spec fn type_fault(path: Seq<char>, expected: Seq<char>) -> WireFault {
    WireFault::Type { path, expected }
}

pub open spec fn len_fault(path: Seq<char>, expected: nat, actual: nat) -> WireFault {
    WireFault::Length { path, expected, actual }
}

pub open spec fn first_of(values: Seq<JsonValue>) -> Option<JsonValue> {
    if values.len() > 0 {
        Some(values[0])
    } else {
        None
    }
}

pub open spec fn array_spec(v: JsonValue, path: Seq<char>) -> Result<Seq<JsonValue>, WireFault> {
    match v {
        JsonValue::Array(values) => Ok(values@),
        _ => Err(type_fault(path, "an array"@)),
    }
}

pub open spec fn number_spec(v: Option<JsonValue>, path: Seq<char>) -> Result<u64, WireFault> {
    match v {
        Some(JsonValue::Number(JsonNumber::PosInt(n))) => Ok(n),
        _ => Err(type_fault(path, "an unsigned JSON integer"@)),
    }
}

pub open spec fn is_digit_char(c: char) -> bool {
    '0' <= c && c <= '9'
}

/// The value of a string of decimal digits.
pub open spec fn digits_value(s: Seq<char>) -> nat
    decreases s.len(),
{
    if s.len() == 0 {
        0
    } else {
        digits_value(s.drop_last()) * 10 + (s.last() as nat - '0' as nat) as nat
    }
}

/// Canonical decimal spelling: non-empty ASCII digits without a leading zero.
pub open spec fn canonical_decimal(s: Seq<char>) -> bool {
    &&& s.len() > 0
    &&& forall|i: int| 0 <= i < s.len() ==> is_digit_char(#[trigger] s[i])
    &&& !(s.len() > 1 && s[0] == '0')
}

pub open spec fn nat_spec(v: Option<JsonValue>, path: Seq<char>) -> Result<u64, WireFault> {
    match v {
        Some(JsonValue::String(text)) => if canonical_decimal(text@) && digits_value(text@)
            <= u64::MAX {
            Ok(digits_value(text@) as u64)
        } else {
            Err(WireFault::Natural { path, value: text@ })
        },
        _ => Err(type_fault(path, "a canonical decimal natural-number string"@)),
    }
}

pub open spec fn name_spec(v: JsonValue, path: Seq<char>) -> Result<Seq<char>, WireFault> {
    match v {
        JsonValue::String(name) => if name@.len() > 0 && encode_utf8(name@).len() <= 4096 {
            Ok(name@)
        } else {
            Err(WireFault::Name { path })
        },
        _ => Err(WireFault::Name { path }),
    }
}

/// Encoding of a universe level tree.
pub open spec fn level_spec(st: EncState, v: JsonValue, depth: nat, path: Seq<char>) -> Result<
    EncState,
    WireFault,
>
    decreases v,
{
    match put_node(st, depth) {
        Err(e) => Err(e),
        Ok(st) => match v {
            JsonValue::Array(vs) => {
                let values = vs@;
                match number_spec(first_of(values), at_index(path, 0)) {
                    Err(e) => Err(e),
                    Ok(tag) => if tag == 0 {
                        if values.len() != 1 {
                            Err(len_fault(path, 1, values.len()))
                        } else {
                            put_heads(st, 1, 0)
                        }
                    } else if tag == 1 {
                        if values.len() != 2 {
                            Err(len_fault(path, 2, values.len()))
                        } else {
                            match put_heads(st, 2, 1) {
                                Err(e) => Err(e),
                                Ok(s) => level_spec(s, values[1], depth + 1, at_index(path, 1)),
                            }
                        }
                    } else if tag == 2 || tag == 3 {
                        if values.len() != 3 {
                            Err(len_fault(path, 3, values.len()))
                        } else {
                            match put_heads(st, 3, tag) {
                                Err(e) => Err(e),
                                Ok(s) => match level_spec(
                                    s,
                                    values[1],
                                    depth + 1,
                                    at_index(path, 1),
                                ) {
                                    Err(e) => Err(e),
                                    Ok(s) => level_spec(s, values[2], depth + 1, at_index(path, 2)),
                                },
                            }
                        }
                    } else if tag == 4 {
                        if values.len() != 2 {
                            Err(len_fault(path, 2, values.len()))
                        } else {
                            match name_spec(values[1], at_index(path, 1)) {
                                Err(e) => Err(e),
                                Ok(name) => match put_heads(st, 2, 4) {
                                    Err(e) => Err(e),
                                    Ok(s) => put_text(s, encode_utf8(name)),
                                },
                            }
                        }
                    } else if tag == 5 {
                        Err(
                            WireFault::UnknownTag {
                                path: at_index(path, 0),
                                kind: "forbidden universe metavariable"@,
                                tag,
                            },
                        )
                    } else {
                        Err(
                            WireFault::UnknownTag {
                                path: at_index(path, 0),
                                kind: "universe level"@,
                                tag,
                            },
                        )
                    },
                }
            },
            _ => Err(type_fault(path, "an array"@)),
        },
    }
}

/// Encoding of the first `n` levels of a constant's level list.
pub open spec fn levels_spec(
    st: EncState,
    levels: Seq<JsonValue>,
    n: nat,
    depth: nat,
    path: Seq<char>,
) -> Result<EncState, WireFault>
    decreases n,
{
    if n == 0 {
        Ok(st)
    } else {
        match levels_spec(st, levels, (n - 1) as nat, depth, path) {
            Err(e) => Err(e),
            Ok(s) => level_spec(s, levels[n - 1], depth, at_index(path, (n - 1) as nat)),
        }
    }
}

/// Encoding of a literal (natural number or string).
pub open spec fn literal_spec(st: EncState, v: JsonValue, path: Seq<char>) -> Result<
    EncState,
    WireFault,
> {
    match array_spec(v, path) {
        Err(e) => Err(e),
        Ok(values) => if values.len() != 2 {
            Err(len_fault(path, 2, values.len()))
        } else {
            match number_spec(first_of(values), at_index(path, 0)) {
                Err(e) => Err(e),
                Ok(tag) => match put_heads(st, 2, tag) {
                    Err(e) => Err(e),
                    Ok(s) => if tag == 0 {
                        match nat_spec(Some(values[1]), at_index(path, 1)) {
                            Err(e) => Err(e),
                            Ok(n) => put(s, cbor_head(0, n)),
                        }
                    } else if tag == 1 {
                        match values[1] {
                            JsonValue::String(t) => put_text(s, encode_utf8(t@)),
                            _ => Err(type_fault(at_index(path, 1), "a UTF-8 JSON string"@)),
                        }
                    } else {
                        Err(WireFault::UnknownTag { path: at_index(path, 0), kind: "literal"@, tag })
                    },
                },
            }
        },
    }
}

/// Encoding of an expression tree.
pub open spec fn expr_spec(st: EncState, v: JsonValue, depth: nat, path: Seq<char>) -> Result<
    EncState,
    WireFault,
>
    decreases v,
{
    match put_node(st, depth) {
        Err(e) => Err(e),
        Ok(st) => match v {
            JsonValue::Array(vs) => {
                let values = vs@;
                match number_spec(first_of(values), at_index(path, 0)) {
                    Err(e) => Err(e),
                    Ok(tag) => if tag == 0 {
                        if values.len() != 2 {
                            Err(len_fault(path, 2, values.len()))
                        } else {
                            match put_heads(st, 2, 0) {
                                Err(e) => Err(e),
                                Ok(s) => match nat_spec(Some(values[1]), at_index(path, 1)) {
                                    Err(e) => Err(e),
                                    Ok(n) => put(s, cbor_head(0, n)),
                                },
                            }
                        }
                    } else if tag == 1 {
                        if values.len() != 2 {
                            Err(len_fault(path, 2, values.len()))
                        } else {
                            match put_heads(st, 2, 1) {
                                Err(e) => Err(e),
                                Ok(s) => level_spec(s, values[1], depth + 1, at_index(path, 1)),
                            }
                        }
                    } else if tag == 2 {
                        if values.len() != 3 {
                            Err(len_fault(path, 3, values.len()))
                        } else {
                            match name_spec(values[1], at_index(path, 1)) {
                                Err(e) => Err(e),
                                Ok(name) => match array_spec(values[2], at_index(path, 2)) {
                                    Err(e) => Err(e),
                                    Ok(levels) => match put_heads(st, 3, 2) {
                                        Err(e) => Err(e),
                                        Ok(s) => match put_text(s, encode_utf8(name)) {
                                            Err(e) => Err(e),
                                            Ok(s) => match put(s, cbor_head(4, levels.len() as u64)) {
                                                Err(e) => Err(e),
                                                Ok(s) => levels_spec(
                                                    s,
                                                    levels,
                                                    levels.len(),
                                                    depth + 1,
                                                    at_index(path, 2),
                                                ),
                                            },
                                        },
                                    },
                                },
                            }
                        }
                    } else if tag == 3 {
                        if values.len() != 3 {
                            Err(len_fault(path, 3, values.len()))
                        } else {
                            match put_heads(st, 3, 3) {
                                Err(e) => Err(e),
                                Ok(s) => match expr_spec(s, values[1], depth + 1, at_index(path, 1)) {
                                    Err(e) => Err(e),
                                    Ok(s) => expr_spec(s, values[2], depth + 1, at_index(path, 2)),
                                },
                            }
                        }
                    } else if tag == 4 || tag == 5 {
                        if values.len() != 4 {
                            Err(len_fault(path, 4, values.len()))
                        } else {
                            match number_spec(Some(values[1]), at_index(path, 1)) {
                                Err(e) => Err(e),
                                Ok(binder) => if binder > 3 {
                                    Err(
                                        WireFault::UnknownTag {
                                            path: at_index(path, 1),
                                            kind: "binder-info"@,
                                            tag: binder,
                                        },
                                    )
                                } else {
                                    match put_heads(st, 4, tag) {
                                        Err(e) => Err(e),
                                        Ok(s) => match put(s, cbor_head(0, binder)) {
                                            Err(e) => Err(e),
                                            Ok(s) => match expr_spec(
                                                s,
                                                values[2],
                                                depth + 1,
                                                at_index(path, 2),
                                            ) {
                                                Err(e) => Err(e),
                                                Ok(s) => expr_spec(
                                                    s,
                                                    values[3],
                                                    depth + 1,
                                                    at_index(path, 3),
                                                ),
                                            },
                                        },
                                    }
                                },
                            }
                        }
                    } else if tag == 6 {
                        if values.len() != 4 {
                            Err(len_fault(path, 4, values.len()))
                        } else {
                            match put_heads(st, 4, 6) {
                                Err(e) => Err(e),
                                Ok(s) => match expr_spec(s, values[1], depth + 1, at_index(path, 1)) {
                                    Err(e) => Err(e),
                                    Ok(s) => match expr_spec(
                                        s,
                                        values[2],
                                        depth + 1,
                                        at_index(path, 2),
                                    ) {
                                        Err(e) => Err(e),
                                        Ok(s) => expr_spec(
                                            s,
                                            values[3],
                                            depth + 1,
                                            at_index(path, 3),
                                        ),
                                    },
                                },
                            }
                        }
                    } else if tag == 7 {
                        if values.len() != 2 {
                            Err(len_fault(path, 2, values.len()))
                        } else {
                            match put_heads(st, 2, 7) {
                                Err(e) => Err(e),
                                Ok(s) => literal_spec(s, values[1], at_index(path, 1)),
                            }
                        }
                    } else if tag == 8 {
                        if values.len() != 2 {
                            Err(len_fault(path, 2, values.len()))
                        } else {
                            match put_heads(st, 2, 8) {
                                Err(e) => Err(e),
                                Ok(s) => expr_spec(s, values[1], depth + 1, at_index(path, 1)),
                            }
                        }
                    } else if tag == 9 {
                        if values.len() != 4 {
                            Err(len_fault(path, 4, values.len()))
                        } else {
                            match name_spec(values[1], at_index(path, 1)) {
                                Err(e) => Err(e),
                                Ok(name) => match put_heads(st, 4, 9) {
                                    Err(e) => Err(e),
                                    Ok(s) => match put_text(s, encode_utf8(name)) {
                                        Err(e) => Err(e),
                                        Ok(s) => match nat_spec(Some(values[2]), at_index(path, 2)) {
                                            Err(e) => Err(e),
                                            Ok(n) => match put(s, cbor_head(0, n)) {
                                                Err(e) => Err(e),
                                                Ok(s) => expr_spec(
                                                    s,
                                                    values[3],
                                                    depth + 1,
                                                    at_index(path, 3),
                                                ),
                                            },
                                        },
                                    },
                                },
                            }
                        }
                    } else {
                        Err(
                            WireFault::UnknownTag {
                                path: at_index(path, 0),
                                kind: "expression"@,
                                tag,
                            },
                        )
                    },
                }
            },
            _ => Err(type_fault(path, "an array"@)),
        },
    }
}

/// The result of encoding a whole statement: the exact canonical CBOR bytes,
/// or the first violation in traversal order.
pub open spec fn statement_spec(v: JsonValue) -> Result<Seq<u8>, WireFault> {
    match array_spec(v, "$statement"@) {
        Err(e) => Err(e),
        Ok(stmt) => if stmt.len() != 2 {
            Err(len_fault("$statement"@, 2, stmt.len()))
        } else if !(stmt[0].spec_as_str() == Some(STATEMENT_ENCODING@)) {
            Err(type_fault("$statement[0]"@, "the literal string 'lean-expr-cbor/1'"@))
        } else {
            match put(empty_state(), cbor_head(4, 2)) {
                Err(e) => Err(e),
                Ok(s) => match put_text(s, encode_utf8(STATEMENT_ENCODING@)) {
                    Err(e) => Err(e),
                    Ok(s) => match expr_spec(s, stmt[1], 0, "$statement[1]"@) {
                        Err(e) => Err(e),
                        Ok(s) => Ok(s.bytes),
                    },
                },
            }
        },
    }
}

/// Relates an encoder step's spec outcome to what the executable step did.
pub open spec fn outcome(spec: Result<EncState, WireFault>, r: Result<(), WireError>, after: EncState) -> bool {
    match r {
        Ok(_) => spec == Ok::<EncState, WireFault>(after),
        Err(e) => spec == Err::<EncState, WireFault>(e@),
    }
}

proof fn lemma_put_concat(st: EncState, a: Seq<u8>, b: Seq<u8>)
    ensures
        put(st, a + b) == match put(st, a) {
            Err(e) => Err(e),
            Ok(s) => put(s, b),
        },
{
    assert(st.bytes + (a + b) =~= st.bytes + a + b);
}

struct Encoder {
    bytes: Vec<u8>,
    nodes: usize,
    text_bytes: usize,
}

impl Encoder {
    spec fn st(&self) -> EncState {
        EncState { bytes: self.bytes@, nodes: self.nodes as nat, text: self.text_bytes as nat }
    }

    spec fn wf(&self) -> bool {
        &&& self.bytes@.len() <= MAX_CBOR_BYTES
        &&& self.nodes <= MAX_NODES
        &&& self.text_bytes <= MAX_TEXT_BYTES
    }

    fn new() -> (e: Encoder)
        ensures
            e.wf(),
            e.st() == empty_state(),
    {
        Encoder { bytes: Vec::new(), nodes: 0, text_bytes: 0 }
    }

    fn ensure_room(&self, additional: usize) -> (r: Result<(), WireError>)
        requires
            self.wf(),
        ensures
            r is Ok <==> self.bytes@.len() + additional <= MAX_CBOR_BYTES,
            r matches Err(e) ==> e@ == WireFault::TooManyBytes,
    {
        match self.bytes.len().checked_add(additional) {
            None => Err(WireError::TooManyBytes),
            Some(size) => if size > MAX_CBOR_BYTES {
                Err(WireError::TooManyBytes)
            } else {
                Ok(())
            },
        }
    }

    fn byte(&mut self, byte: u8) -> (r: Result<(), WireError>)
        requires
            old(self).wf(),
        ensures
            final(self).wf(),
            outcome(put(old(self).st(), seq![byte]), r, final(self).st()),
    {
        self.ensure_room(1)?;
        self.bytes.push(byte);
        proof {
            assert(self.st().bytes =~= old(self).st().bytes + seq![byte]);
        }
        Ok(())
    }

    fn extend(&mut self, bytes: &[u8]) -> (r: Result<(), WireError>)
        requires
            old(self).wf(),
        ensures
            final(self).wf(),
            outcome(put(old(self).st(), bytes@), r, final(self).st()),
    {
        self.ensure_room(bytes.len())?;
        self.bytes.extend_from_slice(bytes);
        proof {
            assert(self.st().bytes =~= old(self).st().bytes + bytes@);
        }
        Ok(())
    }

    fn major_uint(&mut self, major: u8, value: u64) -> (r: Result<(), WireError>)
        requires
            old(self).wf(),
            major <= 7,
        ensures
            final(self).wf(),
            outcome(put(old(self).st(), cbor_head(major, value)), r, final(self).st()),
    {
        let prefix: u8 = major * 32;
        let ghost st0 = self.st();
        if value <= 23 {
            self.byte(prefix + value as u8)
        } else if value <= 0xff {
            proof {
                lemma_put_concat(st0, seq![(prefix + 24) as u8], seq![value as u8]);
                assert(cbor_head(major, value) =~= seq![(prefix + 24) as u8] + seq![value as u8]);
            }
            self.byte(prefix + 24)?;
            self.byte(value as u8)
        } else {
            let (marker, width): (u8, usize) = if value <= 0xffff {
                (25, 2)
            } else if value <= 0xffff_ffff {
                (26, 4)
            } else {
                (27, 8)
            };
            let mut tail: Vec<u8> = Vec::new();
            push_be(&mut tail, value, width);
            proof {
                assert(tail@ =~= be_bytes(value as nat, width as nat));
                lemma_put_concat(st0, seq![(prefix + marker) as u8], tail@);
                assert(cbor_head(major, value) =~= seq![(prefix + marker) as u8] + tail@);
            }
            self.byte(prefix + marker)?;
            self.extend(tail.as_slice())
        }
    }

    fn uint(&mut self, value: u64) -> (r: Result<(), WireError>)
        requires
            old(self).wf(),
        ensures
            final(self).wf(),
            outcome(put(old(self).st(), cbor_head(0, value)), r, final(self).st()),
    {
        self.major_uint(0, value)
    }

    fn array(&mut self, length: usize) -> (r: Result<(), WireError>)
        requires
            old(self).wf(),
        ensures
            final(self).wf(),
            outcome(put(old(self).st(), cbor_head(4, length as u64)), r, final(self).st()),
    {
        self.major_uint(4, length as u64)
    }

    /// An array head followed by an unsigned tag.
    fn heads(&mut self, length: usize, tag: u64) -> (r: Result<(), WireError>)
        requires
            old(self).wf(),
        ensures
            final(self).wf(),
            outcome(put_heads(old(self).st(), length as u64, tag), r, final(self).st()),
    {
        self.array(length)?;
        self.uint(tag)
    }

    fn text(&mut self, text: &str) -> (r: Result<(), WireError>)
        requires
            old(self).wf(),
        ensures
            final(self).wf(),
            outcome(put_text(old(self).st(), encode_utf8(text@)), r, final(self).st()),
    {
        let bytes = text.as_bytes();
        let len = bytes.len();
        let total = match self.text_bytes.checked_add(len) {
            Some(total) => total,
            None => return Err(WireError::TooMuchText),
        };
        if total > MAX_TEXT_BYTES {
            return Err(WireError::TooMuchText);
        }
        self.text_bytes = total;
        self.major_uint(3, len as u64)?;
        self.extend(bytes)
    }

    fn node(&mut self, depth: usize) -> (r: Result<(), WireError>)
        requires
            old(self).wf(),
        ensures
            final(self).wf(),
            outcome(put_node(old(self).st(), depth as nat), r, final(self).st()),
            r is Ok ==> depth <= MAX_DEPTH,
    {
        if depth > MAX_DEPTH {
            return Err(WireError::TooDeep);
        }
        if self.nodes + 1 > MAX_NODES {
            return Err(WireError::TooManyNodes);
        }
        self.nodes = self.nodes + 1;
        Ok(())
    }
}


pub open spec fn deref_opt(o: Option<&JsonValue>) -> Option<JsonValue> {
    match o {
        Some(v) => Some(*v),
        None => None,
    }
}

fn type_error(path: &str, expected: &'static str) -> (e: WireError)
    ensures
        e@ == type_fault(path@, expected@),
{
    WireError::Type { path: path.to_owned(), expected }
}

fn array<'a>(value: &'a JsonValue, path: &str) -> (r: Result<&'a Vec<JsonValue>, WireError>)
    ensures
        match r {
            Ok(values) => array_spec(*value, path@) == Ok::<Seq<JsonValue>, WireFault>(values@)
                && *value == JsonValue::Array(*values),
            Err(e) => array_spec(*value, path@) == Err::<Seq<JsonValue>, WireFault>(e@),
        },
{
    match value {
        JsonValue::Array(values) => Ok(values),
        _ => Err(type_error(path, "an array")),
    }
}

fn exact_len(values: &Vec<JsonValue>, expected: usize, path: &str) -> (r: Result<(), WireError>)
    ensures
        r is Ok <==> values@.len() == expected,
        r matches Err(e) ==> e@ == len_fault(path@, expected as nat, values@.len()),
{
    if values.len() != expected {
        return Err(WireError::Length { path: path.to_owned(), expected, actual: values.len() });
    }
    Ok(())
}

fn required<'a>(values: &'a Vec<JsonValue>, index: usize, path: &str) -> (r: Result<
    &'a JsonValue,
    WireError,
>)
    ensures
        r matches Ok(v) ==> index < values@.len() && *v == values@[index as int],
        r is Ok <==> index < values@.len(),
{
    if index < values.len() {
        Ok(&values[index])
    } else {
        let expected = if index < usize::MAX {
            index + 1
        } else {
            index
        };
        Err(WireError::Length { path: path.to_owned(), expected, actual: values.len() })
    }
}

fn first(values: &Vec<JsonValue>) -> (r: Option<&JsonValue>)
    ensures
        deref_opt(r) == first_of(values@),
{
    if values.len() > 0 {
        Some(&values[0])
    } else {
        None
    }
}

fn bounded_number(value: Option<&JsonValue>, path: &str) -> (r: Result<u64, WireError>)
    ensures
        match r {
            Ok(n) => number_spec(deref_opt(value), path@) == Ok::<u64, WireFault>(n),
            Err(e) => number_spec(deref_opt(value), path@) == Err::<u64, WireFault>(e@),
        },
{
    match value {
        Some(JsonValue::Number(JsonNumber::PosInt(n))) => Ok(*n),
        _ => Err(type_error(path, "an unsigned JSON integer")),
    }
}

proof fn lemma_digits_prefix_le(s: Seq<char>, j: int)
    requires
        0 <= j <= s.len(),
        forall|i: int| 0 <= i < s.len() ==> is_digit_char(#[trigger] s[i]),
    ensures
        digits_value(s.take(j)) <= digits_value(s),
    decreases s.len(),
{
    if j < s.len() {
        assert(s.drop_last().take(j) =~= s.take(j));
        lemma_digits_prefix_le(s.drop_last(), j);
    } else {
        assert(s.take(j) =~= s);
    }
}

fn natural_error(path: &str, text: &str) -> (e: WireError)
    ensures
        e@ == (WireFault::Natural { path: path@, value: text@ }),
{
    WireError::Natural { path: path.to_owned(), value: text.to_owned() }
}

fn transport_nat(value: Option<&JsonValue>, path: &str) -> (r: Result<u64, WireError>)
    ensures
        r matches Ok(v) ==> nat_spec(deref_opt(value), path@) == Ok::<u64, WireFault>(v),
        r matches Err(e) ==> nat_spec(deref_opt(value), path@) == Err::<u64, WireFault>(e@),
{
    let text = match value {
        Some(JsonValue::String(text)) => text,
        _ => return Err(type_error(path, "a canonical decimal natural-number string")),
    };
    let chars = crate::text::chars_of(text.as_str());
    let n = chars.len();
    if n == 0 || (n > 1 && chars[0] == '0') {
        proof {
            assert(!canonical_decimal(text@));
            assert(deref_opt(value) == Some(JsonValue::String(*text)));
            assert(nat_spec(deref_opt(value), path@) is Err);
            assert(nat_spec(deref_opt(value), path@) == Err::<u64, WireFault>(
                WireFault::Natural { path: path@, value: text@ },
            ));
        }
        return Err(natural_error(path, text.as_str()));
    }
    let mut acc: u64 = 0;
    let mut i: usize = 0;
    while i < n
        invariant
            n == chars@.len(),
            chars@ == text@,
            deref_opt(value) == Some(JsonValue::String(*text)),
            i <= n,
            forall|k: int| 0 <= k < i ==> is_digit_char(#[trigger] chars@[k]),
            acc as nat == digits_value(chars@.take(i as int)),
        decreases n - i,
    {
        let c = chars[i];
        if !('0' <= c && c <= '9') {
            proof {
                assert(!is_digit_char(text@[i as int]));
                assert(!canonical_decimal(text@));
                assert(deref_opt(value) == Some(JsonValue::String(*text)));
            }
            return Err(natural_error(path, text.as_str()));
        }
        let d = (c as u32 - '0' as u32) as u64;
        proof {
            assert(chars@.take(i + 1).drop_last() =~= chars@.take(i as int));
        }
        let next = match acc.checked_mul(10) {
            Some(m) => m.checked_add(d),
            None => None,
        };
        match next {
            Some(v) => {
                acc = v;
            },
            None => {
                proof {
                    assert(is_digit_char(chars@[i as int]));
                    assert(digits_value(chars@.take(i + 1)) == acc * 10 + d);
                    assert(digits_value(chars@.take(i + 1)) > u64::MAX);
                    if canonical_decimal(chars@) {
                        lemma_digits_prefix_le(chars@, i + 1);
                    }
                    assert(deref_opt(value) == Some(JsonValue::String(*text)));
                }
                return Err(natural_error(path, text.as_str()));
            },
        }
        i = i + 1;
    }
    proof {
        assert(chars@.take(n as int) =~= chars@);
    }
    Ok(acc)
}

fn lean_name<'a>(value: &'a JsonValue, path: &str) -> (r: Result<&'a str, WireError>)
    ensures
        match r {
            Ok(name) => name_spec(*value, path@) == Ok::<Seq<char>, WireFault>(name@),
            Err(e) => name_spec(*value, path@) == Err::<Seq<char>, WireFault>(e@),
        },
{
    match value {
        JsonValue::String(name) => {
            let name = name.as_str();
            if !name.is_empty() && name.as_bytes().len() <= 4096 {
                Ok(name)
            } else {
                Err(WireError::Name { path: path.to_owned() })
            }
        },
        _ => Err(WireError::Name { path: path.to_owned() }),
    }
}

proof fn lemma_levels_err(
    st: EncState,
    levels: Seq<JsonValue>,
    k: nat,
    m: nat,
    depth: nat,
    path: Seq<char>,
    e: WireFault,
)
    requires
        k <= m,
        levels_spec(st, levels, k, depth, path) == Err::<EncState, WireFault>(e),
    ensures
        levels_spec(st, levels, m, depth, path) == Err::<EncState, WireFault>(e),
    decreases m,
{
    if k < m {
        lemma_levels_err(st, levels, k, (m - 1) as nat, depth, path, e);
    }
}

fn encode_level(encoder: &mut Encoder, value: &JsonValue, depth: usize, path: &str) -> (r: Result<
    (),
    WireError,
>)
    requires
        old(encoder).wf(),
    ensures
        final(encoder).wf(),
        outcome(level_spec(old(encoder).st(), *value, depth as nat, path@), r, final(encoder).st()),
    decreases value,
{
    encoder.node(depth)?;
    let values = array(value, path)?;
    let p0 = indexed_path(path, 0);
    let tag = bounded_number(first(values), p0.as_str())?;
    if tag == 0 {
        exact_len(values, 1, path)?;
        encoder.heads(1, 0)
    } else if tag == 1 {
        exact_len(values, 2, path)?;
        encoder.heads(2, 1)?;
        let p1 = indexed_path(path, 1);
        encode_level(encoder, required(values, 1, path)?, depth + 1, p1.as_str())
    } else if tag == 2 || tag == 3 {
        exact_len(values, 3, path)?;
        encoder.heads(3, tag)?;
        let p1 = indexed_path(path, 1);
        encode_level(encoder, required(values, 1, path)?, depth + 1, p1.as_str())?;
        let p2 = indexed_path(path, 2);
        encode_level(encoder, required(values, 2, path)?, depth + 1, p2.as_str())
    } else if tag == 4 {
        exact_len(values, 2, path)?;
        let p1 = indexed_path(path, 1);
        let name = lean_name(required(values, 1, path)?, p1.as_str())?;
        encoder.heads(2, 4)?;
        encoder.text(name)
    } else if tag == 5 {
        Err(
            WireError::UnknownTag {
                path: p0,
                kind: "forbidden universe metavariable",
                tag,
            },
        )
    } else {
        Err(WireError::UnknownTag { path: p0, kind: "universe level", tag })
    }
}


fn encode_levels(encoder: &mut Encoder, levels: &Vec<JsonValue>, depth: usize, path: &str) -> (r: Result<
    (),
    WireError,
>)
    requires
        old(encoder).wf(),
        depth <= MAX_DEPTH + 1,
    ensures
        final(encoder).wf(),
        outcome(
            levels_spec(old(encoder).st(), levels@, levels@.len(), depth as nat, path@),
            r,
            final(encoder).st(),
        ),
{
    let ghost start = encoder.st();
    let mut index: usize = 0;
    while index < levels.len()
        invariant
            encoder.wf(),
            index <= levels@.len(),
            depth <= MAX_DEPTH + 1,
            start == old(encoder).st(),
            levels_spec(start, levels@, index as nat, depth as nat, path@) == Ok::<
                EncState,
                WireFault,
            >(encoder.st()),
        decreases levels@.len() - index,
    {
        let pi = indexed_path(path, index as u64);
        match encode_level(encoder, &levels[index], depth, pi.as_str()) {
            Ok(()) => {},
            Err(e) => {
                proof {
                    assert(levels_spec(start, levels@, (index + 1) as nat, depth as nat, path@)
                        == Err::<EncState, WireFault>(e@));
                    lemma_levels_err(
                        start,
                        levels@,
                        (index + 1) as nat,
                        levels@.len(),
                        depth as nat,
                        path@,
                        e@,
                    );
                }
                return Err(e);
            },
        }
        index = index + 1;
    }
    Ok(())
}

fn encode_literal(encoder: &mut Encoder, value: &JsonValue, path: &str) -> (r: Result<
    (),
    WireError,
>)
    requires
        old(encoder).wf(),
    ensures
        final(encoder).wf(),
        outcome(literal_spec(old(encoder).st(), *value, path@), r, final(encoder).st()),
{
    let values = array(value, path)?;
    exact_len(values, 2, path)?;
    let p0 = indexed_path(path, 0);
    let p1 = indexed_path(path, 1);
    let tag = bounded_number(first(values), p0.as_str())?;
    encoder.heads(2, tag)?;
    if tag == 0 {
        let n = transport_nat(Some(&values[1]), p1.as_str())?;
        encoder.uint(n)
    } else if tag == 1 {
        match &values[1] {
            JsonValue::String(text) => encoder.text(text.as_str()),
            _ => Err(type_error(p1.as_str(), "a UTF-8 JSON string")),
        }
    } else {
        Err(WireError::UnknownTag { path: p0, kind: "literal", tag })
    }
}

#[verifier::rlimit(60)]
fn encode_expr(encoder: &mut Encoder, value: &JsonValue, depth: usize, path: &str) -> (r: Result<
    (),
    WireError,
>)
    requires
        old(encoder).wf(),
    ensures
        final(encoder).wf(),
        outcome(expr_spec(old(encoder).st(), *value, depth as nat, path@), r, final(encoder).st()),
    decreases value,
{
    encoder.node(depth)?;
    let values = array(value, path)?;
    let p0 = indexed_path(path, 0);
    let tag = bounded_number(first(values), p0.as_str())?;
    if tag == 0 {
        exact_len(values, 2, path)?;
        encoder.heads(2, 0)?;
        let p1 = indexed_path(path, 1);
        let n = transport_nat(Some(&values[1]), p1.as_str())?;
        encoder.uint(n)
    } else if tag == 1 {
        exact_len(values, 2, path)?;
        encoder.heads(2, 1)?;
        let p1 = indexed_path(path, 1);
        encode_level(encoder, required(values, 1, path)?, depth + 1, p1.as_str())
    } else if tag == 2 {
        exact_len(values, 3, path)?;
        let p1 = indexed_path(path, 1);
        let name = lean_name(required(values, 1, path)?, p1.as_str())?;
        let p2 = indexed_path(path, 2);
        let levels = array(required(values, 2, path)?, p2.as_str())?;
        encoder.heads(3, 2)?;
        encoder.text(name)?;
        encoder.array(levels.len())?;
        encode_levels(encoder, levels, depth + 1, p2.as_str())
    } else if tag == 3 {
        exact_len(values, 3, path)?;
        encoder.heads(3, 3)?;
        let p1 = indexed_path(path, 1);
        encode_expr(encoder, required(values, 1, path)?, depth + 1, p1.as_str())?;
        let p2 = indexed_path(path, 2);
        encode_expr(encoder, required(values, 2, path)?, depth + 1, p2.as_str())
    } else if tag == 4 || tag == 5 {
        exact_len(values, 4, path)?;
        let p1 = indexed_path(path, 1);
        let binder = bounded_number(Some(&values[1]), p1.as_str())?;
        if binder > 3 {
            return Err(WireError::UnknownTag { path: p1, kind: "binder-info", tag: binder });
        }
        encoder.heads(4, tag)?;
        encoder.uint(binder)?;
        let p2 = indexed_path(path, 2);
        encode_expr(encoder, required(values, 2, path)?, depth + 1, p2.as_str())?;
        let p3 = indexed_path(path, 3);
        encode_expr(encoder, required(values, 3, path)?, depth + 1, p3.as_str())
    } else if tag == 6 {
        exact_len(values, 4, path)?;
        encoder.heads(4, 6)?;
        let p1 = indexed_path(path, 1);
        encode_expr(encoder, required(values, 1, path)?, depth + 1, p1.as_str())?;
        let p2 = indexed_path(path, 2);
        encode_expr(encoder, required(values, 2, path)?, depth + 1, p2.as_str())?;
        let p3 = indexed_path(path, 3);
        encode_expr(encoder, required(values, 3, path)?, depth + 1, p3.as_str())
    } else if tag == 7 {
        exact_len(values, 2, path)?;
        encoder.heads(2, 7)?;
        let p1 = indexed_path(path, 1);
        encode_literal(encoder, required(values, 1, path)?, p1.as_str())
    } else if tag == 8 {
        exact_len(values, 2, path)?;
        encoder.heads(2, 8)?;
        let p1 = indexed_path(path, 1);
        encode_expr(encoder, required(values, 1, path)?, depth + 1, p1.as_str())
    } else if tag == 9 {
        exact_len(values, 4, path)?;
        let p1 = indexed_path(path, 1);
        let name = lean_name(required(values, 1, path)?, p1.as_str())?;
        encoder.heads(4, 9)?;
        encoder.text(name)?;
        let p2 = indexed_path(path, 2);
        let n = transport_nat(Some(&values[2]), p2.as_str())?;
        encoder.uint(n)?;
        let p3 = indexed_path(path, 3);
        encode_expr(encoder, required(values, 3, path)?, depth + 1, p3.as_str())
    } else {
        Err(WireError::UnknownTag { path: p0, kind: "expression", tag })
    }
}

/// Validates a Lean statement wire tree and encodes the exact CDDL item using
/// RFC 8949 shortest integers and definite-length arrays and text strings.
pub fn encode_statement(value: &JsonValue) -> (r: Result<Vec<u8>, WireError>)
    ensures
        match r {
            Ok(bytes) => statement_spec(*value) == Ok::<Seq<u8>, WireFault>(bytes@),
            Err(e) => statement_spec(*value) == Err::<Seq<u8>, WireFault>(e@),
        },
{
    let statement = array(value, "$statement")?;
    exact_len(statement, 2, "$statement")?;
    let version_ok = match &statement[0] {
        JsonValue::String(version) => str_equal(version.as_str(), STATEMENT_ENCODING),
        _ => false,
    };
    if !version_ok {
        return Err(type_error("$statement[0]", "the literal string 'lean-expr-cbor/1'"));
    }
    let mut encoder = Encoder::new();
    encoder.array(2)?;
    encoder.text(STATEMENT_ENCODING)?;
    encode_expr(&mut encoder, required(statement, 1, "$statement")?, 0, "$statement[1]")?;
    Ok(encoder.bytes)
}

fn push_be(out: &mut Vec<u8>, v: u64, n: usize)
    ensures
        final(out)@ == old(out)@ + be_bytes(v as nat, n as nat),
    decreases n,
{
    if n > 0 {
        push_be(out, v / 256, n - 1);
        out.push((v % 256) as u8);
        proof {
            assert(final(out)@ =~= old(out)@ + be_bytes(v as nat, n as nat));
        }
    } else {
        proof {
            assert(final(out)@ =~= old(out)@ + be_bytes(v as nat, n as nat));
        }
    }
}

} // verus!

verus! {

/// Domain separator of statement identities (a NUL byte follows it).
pub const HASH_DOMAIN: &'static str = "proofbound:lean-expr-cbor/1";

/// The statement identity: the domain-separated SHA-256 of the canonical
/// CBOR encoding, or the encoding's refusal.
pub open spec fn statement_digest_spec(v: JsonValue) -> Result<Seq<char>, WireFault> {
    match statement_spec(v) {
        Ok(bytes) => Ok(domain_digest_spec(encode_utf8(HASH_DOMAIN@), bytes)),
        Err(e) => Err(e),
    }
}

/// The statement identity specified by `schemas/lean-expr-v1.cddl`.
pub fn statement_digest(value: &JsonValue) -> (r: Result<Sha256Digest, WireError>)
    ensures
        r matches Ok(d) ==> statement_digest_spec(*value) == Ok::<Seq<char>, WireFault>(d@),
        r matches Err(e) ==> statement_digest_spec(*value) == Err::<Seq<char>, WireFault>(e@),
{
    let cbor = encode_statement(value)?;
    Ok(domain_digest(HASH_DOMAIN, cbor.as_slice()))
}

} // verus!
