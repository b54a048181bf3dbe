//! Recognition of the artifact-binding statement form in statement wires.
//!
//! A plain theorem carries no binding marker and is accepted as it is. Once a
//! marker constant occurs anywhere, it must head the statement's root
//! application exactly once, with every security-relevant field a literal.
use vstd::prelude::*;
use vstd::utf8::encode_utf8;
use crate::inventory::contains_chars;
use crate::json::JsonValue;
use crate::lean::{increasing, strictly_increasing, AdapterError, ARTIFACT_BINDING};
use crate::names::{is_sha256_text, valid_digest};
use crate::text::{chars_of, decimal, push_decimal, str_equal, string_views, views};
use crate::wire::STATEMENT_ENCODING;

verus! {

pub const DIGEST_BINDING_V1: &'static str = "Proofbound.Artifact.DigestBindingV1";

pub const DIGEST_BINDING_SET_V1: &'static str = "Proofbound.Artifact.DigestBindingSetV1";

pub const DIGEST_BINDING_MEMBER_V1: &'static str = "Proofbound.Artifact.DigestBindingMemberV1";

pub const DIGEST_BINDING_MEMBER_CTOR_V1: &'static str = "Proofbound.Artifact.DigestBindingMemberV1.mk";

pub const LIST_CONS: &'static str = "List.cons";

pub const LIST_NIL: &'static str = "List.nil";

/// The most members a binding set may list.
pub const MAX_BINDING_MEMBERS: usize = 256;

/// The integer at the head of an array node.
pub open spec fn node_tag(values: Seq<JsonValue>) -> Option<u64> {
    if values.len() > 0 {
        values[0].spec_as_u64()
    } else {
        None
    }
}

/// Whether `v` is an application node `[3, function, argument]`.
pub open spec fn is_application(v: JsonValue) -> bool {
    match v {
        JsonValue::Array(vs) => vs@.len() == 3 && node_tag(vs@) == Some(3u64),
        _ => false,
    }
}

/// The function at the bottom of an application spine.
pub open spec fn spine_head(v: JsonValue) -> JsonValue
    decreases v,
{
    match v {
        JsonValue::Array(vs) => if vs@.len() == 3 && node_tag(vs@) == Some(3u64) {
            spine_head(vs@[1])
        } else {
            v
        },
        _ => v,
    }
}

/// The arguments of an application spine, first argument first.
pub open spec fn spine_args(v: JsonValue) -> Seq<JsonValue>
    decreases v,
{
    match v {
        JsonValue::Array(vs) => if vs@.len() == 3 && node_tag(vs@) == Some(3u64) {
            spine_args(vs@[1]).push(vs@[2])
        } else {
            Seq::empty()
        },
        _ => Seq::empty(),
    }
}

/// The values behind a list of references.
pub open spec fn deref_all(s: Seq<&JsonValue>) -> Seq<JsonValue> {
    s.map_values(|x: &JsonValue| *x)
}

/// Whether `level` is the universe level literal `[k]`.
pub open spec fn is_level_literal(level: JsonValue, k: u64) -> bool {
    match level {
        JsonValue::Array(items) => items@.len() == 1 && items@[0].spec_as_u64() == Some(k),
        _ => false,
    }
}

/// Whether `v` is the constant `[2, name, levels]` with exactly the given
/// universe level literals.
pub open spec fn is_exact_constant(v: JsonValue, name: Seq<char>, levels: Seq<u64>) -> bool {
    match v {
        JsonValue::Array(vs) => {
            &&& vs@.len() == 3
            &&& node_tag(vs@) == Some(2u64)
            &&& vs@[1].spec_as_str() == Some(name)
            &&& vs@[2].spec_as_array() matches Some(ls) && ls.len() == levels.len() && forall|i: int|
                0 <= i < ls.len() ==> #[trigger] is_level_literal(ls[i], levels[i])
        },
        _ => false,
    }
}

/// Whether `v` is a constant node naming either binding marker.
pub open spec fn is_marker(v: JsonValue) -> bool {
    match v {
        JsonValue::Array(vs) => {
            &&& vs@.len() == 3
            &&& node_tag(vs@) == Some(2u64)
            &&& (vs@[1].spec_as_str() == Some(DIGEST_BINDING_V1@) || vs@[1].spec_as_str() == Some(
                DIGEST_BINDING_SET_V1@,
            ))
        },
        _ => false,
    }
}

/// How many marker constants occur in `v`, counting `v` itself.
pub open spec fn marker_count(v: JsonValue) -> nat
    decreases v, 0nat,
{
    (if is_marker(v) {
        1nat
    } else {
        0nat
    }) + match v {
        JsonValue::Array(vs) => markers_in(vs@, vs@.len()),
        _ => 0nat,
    }
}

/// How many marker constants occur in the first `n` of `values`.
pub open spec fn markers_in(values: Seq<JsonValue>, n: nat) -> nat
    decreases values, n,
{
    if n == 0 || n > values.len() {
        0
    } else {
        markers_in(values, (n - 1) as nat) + marker_count(values[n - 1])
    }
}

/// The text of a string literal node `[7, [1, text]]`.
pub open spec fn string_literal(v: JsonValue) -> Option<Seq<char>> {
    match v {
        JsonValue::Array(vs) => if vs@.len() == 2 && node_tag(vs@) == Some(7u64) {
            match vs@[1] {
                JsonValue::Array(lit) => if lit@.len() == 2 && node_tag(lit@) == Some(1u64) {
                    lit@[1].spec_as_str()
                } else {
                    None
                },
                _ => None,
            }
        } else {
            None
        },
        _ => None,
    }
}

fn tag_is(values: &Vec<JsonValue>, tag: u64) -> (b: bool)
    ensures
        b == (node_tag(values@) == Some(tag)),
{
    if values.len() == 0 {
        return false;
    }
    match values[0].as_u64() {
        Some(t) => t == tag,
        None => false,
    }
}

/// Splits an application spine into its head and its arguments.
pub fn application_spine<'a>(v: &'a JsonValue) -> (r: (&'a JsonValue, Vec<&'a JsonValue>))
    ensures
        *r.0 == spine_head(*v),
        deref_all(r.1@) == spine_args(*v),
    decreases v,
{
    match v {
        JsonValue::Array(vs) => {
            if vs.len() == 3 && tag_is(vs, 3) {
                let (head, mut args) = application_spine(&vs[1]);
                let ghost before = deref_all(args@);
                args.push(&vs[2]);
                proof {
                    assert(deref_all(args@) =~= before.push(vs@[2]));
                }
                (head, args)
            } else {
                let args: Vec<&JsonValue> = Vec::new();
                proof {
                    assert(deref_all(args@) =~= Seq::<JsonValue>::empty());
                }
                (v, args)
            }
        },
        _ => {
            let args: Vec<&JsonValue> = Vec::new();
            proof {
                assert(deref_all(args@) =~= Seq::<JsonValue>::empty());
            }
            (v, args)
        },
    }
}

/// Whether `v` is the constant `name` with exactly the level literals `levels`.
#[verifier::loop_isolation(false)]
pub fn exact_constant(v: &JsonValue, name: &str, levels: &[u64]) -> (b: bool)
    ensures
        b == is_exact_constant(*v, name@, levels@),
{
    match v {
        JsonValue::Array(vs) => {
            if vs.len() != 3 || !tag_is(vs, 2) {
                return false;
            }
            match vs[1].as_str() {
                Some(s) => {
                    if !crate::text::str_equal(s, name) {
                        return false;
                    }
                },
                None => {
                    return false;
                },
            }
            match vs[2].as_array() {
                Some(ls) => {
                    if ls.len() != levels.len() {
                        return false;
                    }
                    let mut i: usize = 0;
                    while i < ls.len()
                        invariant
                            i <= ls@.len(),
                            ls@.len() == levels@.len(),
                            forall|k: int| 0 <= k < i ==> #[trigger] is_level_literal(ls@[k], levels@[k]),
                        decreases ls@.len() - i,
                    {
                        let ok = match &ls[i] {
                            JsonValue::Array(items) => items.len() == 1 && items[0].as_u64() == Some(
                                levels[i],
                            ),
                            _ => false,
                        };
                        if !ok {
                            proof {
                                assert(!is_level_literal(ls@[i as int], levels@[i as int]));
                            }
                            return false;
                        }
                        i = i + 1;
                    }
                    true
                },
                None => false,
            }
        },
        _ => false,
    }
}

fn is_marker_constant(v: &JsonValue) -> (b: bool)
    ensures
        b == is_marker(*v),
{
    match v {
        JsonValue::Array(vs) => {
            if vs.len() != 3 || !tag_is(vs, 2) {
                return false;
            }
            match vs[1].as_str() {
                Some(s) => crate::text::str_equal(s, DIGEST_BINDING_V1) || crate::text::str_equal(
                    s,
                    DIGEST_BINDING_SET_V1,
                ),
                None => false,
            }
        },
        _ => false,
    }
}

/// The number of marker constants in `v`, counted up to 2: the rules only
/// tell none, one and more apart.
pub fn capped_marker_count(v: &JsonValue) -> (n: usize)
    ensures
        n == (if marker_count(*v) < 2 {
            marker_count(*v)
        } else {
            2
        }),
    decreases v, 0nat,
{
    let own: usize = if is_marker_constant(v) {
        1
    } else {
        0
    };
    match v {
        JsonValue::Array(vs) => {
            let mut n: usize = own;
            let mut i: usize = 0;
            while i < vs.len() && n < 2
                invariant
                    i <= vs@.len(),
                    *v == JsonValue::Array(*vs),
                    own == (if is_marker(*v) { 1nat } else { 0nat }),
                    n == (if own + markers_in(vs@, i as nat) < 2 {
                        own + markers_in(vs@, i as nat)
                    } else {
                        2
                    }),
                decreases vs@.len() - i,
            {
                proof {
                    assert(decreases_to!(v => vs@[i as int]));
                }
                let c = capped_marker_count(&vs[i]);
                n = if n + c < 2 {
                    n + c
                } else {
                    2
                };
                i = i + 1;
            }
            proof {
                if n < 2 {
                    assert(i == vs@.len());
                }
                lemma_markers_in_monotone(vs@, i as nat, vs@.len());
            }
            n
        },
        _ => own,
    }
}

proof fn lemma_markers_in_monotone(values: Seq<JsonValue>, m: nat, n: nat)
    requires
        m <= n <= values.len(),
    ensures
        markers_in(values, m) <= markers_in(values, n),
    decreases n - m,
{
    if m < n {
        lemma_markers_in_monotone(values, m, (n - 1) as nat);
    }
}

/// The text of a string literal node.
pub fn literal_text(v: &JsonValue) -> (r: Option<&str>)
    ensures
        match r {
            Some(s) => string_literal(*v) == Some(s@),
            None => string_literal(*v) is None,
        },
{
    match v {
        JsonValue::Array(vs) => {
            if vs.len() != 2 || !tag_is(vs, 7) {
                return None;
            }
            match &vs[1] {
                JsonValue::Array(lit) => {
                    if lit.len() != 2 || !tag_is(lit, 1) {
                        return None;
                    }
                    lit[1].as_str()
                },
                _ => None,
            }
        },
        _ => None,
    }
}

/// A member's literal name and digest: the name, or the rule they break.
pub open spec fn member_literals(name: JsonValue, digest: JsonValue) -> Result<Seq<char>, Seq<char>> {
    match string_literal(name) {
        None => Err("artifactLogicalName must be an exact string literal"@),
        Some(n) => match string_literal(digest) {
            None => Err("expectedSha256 must be an exact string literal"@),
            Some(d) => if is_sha256_text(d) {
                Ok(n)
            } else {
                Err("expectedSha256 must be 'sha256:' plus 64 lowercase hexadecimal digits"@)
            },
        },
    }
}

/// The names of a complete member list, or the rule they break.
pub open spec fn finish_members(names: Seq<Seq<char>>) -> Result<Seq<Seq<char>>, Seq<char>> {
    if names.len() == 0 {
        Err("artifact-binding member list must be nonempty"@)
    } else if !strictly_increasing(names) {
        Err("artifact-binding members must be strictly ordered by logical name"@)
    } else {
        Ok(names)
    }
}

/// Walks a `List.cons`/`List.nil` spine of binding members, given the names
/// and digests of the members already read.
pub open spec fn member_list(e: JsonValue, names: Seq<Seq<char>>, digests: Seq<Seq<char>>) -> Result<
    Seq<Seq<char>>,
    Seq<char>,
>
    decreases 257 - names.len(),
{
    if names.len() > MAX_BINDING_MEMBERS {
        Err("artifact-binding member count exceeds 256"@)
    } else {
        let head = spine_head(e);
        let args = spine_args(e);
        if is_exact_constant(head, LIST_NIL@, seq![0u64]) {
            if args.len() != 1 || !is_exact_constant(args[0], DIGEST_BINDING_MEMBER_V1@, Seq::empty()) {
                Err("List.nil has the wrong artifact-binding member type"@)
            } else {
                finish_members(names)
            }
        } else if !is_exact_constant(head, LIST_CONS@, seq![0u64]) || args.len() != 3
            || !is_exact_constant(args[0], DIGEST_BINDING_MEMBER_V1@, Seq::empty()) {
            Err("members must be a direct List.cons/List.nil spine"@)
        } else {
            let mh = spine_head(args[1]);
            let ma = spine_args(args[1]);
            if !is_exact_constant(mh, DIGEST_BINDING_MEMBER_CTOR_V1@, Seq::empty()) || ma.len() != 3 {
                Err("member must be an exact DigestBindingMemberV1.mk application"@)
            } else {
                match member_literals(ma[0], ma[1]) {
                    Err(m) => Err(m),
                    Ok(name) => {
                        let digest = string_literal(ma[1])->0;
                        if digests.contains(digest) {
                            Err("artifact-binding member digests must be unique"@)
                        } else if names.len() + 1 > MAX_BINDING_MEMBERS {
                            Err("artifact-binding member count exceeds 256"@)
                        } else {
                            member_list(args[2], names.push(name), digests.push(digest))
                        }
                    },
                }
            }
        }
    }
}

/// What a marked root statement expression yields.
pub open spec fn root_binding(e: JsonValue, claim: Seq<char>) -> Result<Seq<Seq<char>>, Seq<char>> {
    let head = spine_head(e);
    let args = spine_args(e);
    let singular = is_exact_constant(head, DIGEST_BINDING_V1@, Seq::empty());
    let set = is_exact_constant(head, DIGEST_BINDING_SET_V1@, Seq::empty());
    if !singular && !set {
        Err(
            "artifact binding marker occurs below the statement root; bindings must be exact root applications"@,
        )
    } else if marker_count(e) != 1 {
        Err("artifact binding marker must occur exactly once in an artifact-bound statement"@)
    } else if singular && args.len() != 6 {
        Err("DigestBindingV1 requires exactly 6 explicit arguments, found "@ + decimal(args.len()))
    } else if set && args.len() != 4 {
        Err("DigestBindingSetV1 requires exactly 4 explicit arguments, found "@ + decimal(args.len()))
    } else {
        match string_literal(args[0]) {
            None => Err("DigestBindingV1 claimId must be an exact string literal"@),
            Some(c) => match string_literal(args[1]) {
                None => Err("DigestBindingV1 artifactSchema must be an exact string literal"@),
                Some(schema) => if c != claim {
                    Err("artifact binding claimId '"@ + c + "' differs from attributed claim '"@ + claim
                        + "'"@)
                } else if schema.len() == 0 || encode_utf8(schema).len() > 4096 || schema.contains(
                    '\0',
                ) {
                    Err("DigestBindingV1 artifactSchema is empty, oversized, or contains NUL"@)
                } else if singular {
                    match member_literals(args[2], args[3]) {
                        Ok(n) => Ok(seq![n]),
                        Err(m) => Err(m),
                    }
                } else {
                    member_list(args[2], Seq::empty(), Seq::empty())
                },
            },
        }
    }
}

/// What a statement wire yields for the claim it is attributed to: the
/// logical names of the artifacts it binds (none for a plain theorem), or
/// the rule it breaks.
pub open spec fn digest_binding(statement: JsonValue, claim: Seq<char>) -> Result<
    Seq<Seq<char>>,
    Seq<char>,
> {
    match statement.spec_as_array() {
        None => Err("statement wire is not an array"@),
        Some(s) => if s.len() != 2 || s[0].spec_as_str() != Some(STATEMENT_ENCODING@) {
            Err("statement wire has no canonical encoding envelope"@)
        } else if marker_count(s[1]) == 0 {
            Ok(Seq::empty())
        } else {
            root_binding(s[1], claim)
        },
    }
}

/// The remediation every binding failure carries.
pub open spec fn binding_remediation() -> Seq<char> {
    "use an exact Proofbound artifact-binding root statement with literal metadata"@
}

/// A binding failure with `message`.
pub open spec fn binding_failure(e: AdapterError, message: Seq<char>) -> bool {
    &&& e.code == ARTIFACT_BINDING
    &&& e.message@ == message
    &&& e.path is None
    &&& e.remediation matches Some(r) && r@ == binding_remediation()
}

fn binding_error(message: String) -> (e: AdapterError)
    ensures
        binding_failure(e, message@),
{
    AdapterError::new(ARTIFACT_BINDING, message.as_str()).remediate(
        "use an exact Proofbound artifact-binding root statement with literal metadata",
    )
}

fn contains_char(s: &[char], c: char) -> (b: bool)
    ensures
        b == s@.contains(c),
{
    let mut i: usize = 0;
    while i < s.len()
        invariant
            i <= s@.len(),
            forall|k: int| 0 <= k < i ==> s@[k] != c,
        decreases s@.len() - i,
    {
        if s[i] == c {
            proof {
                assert(s@[i as int] == c);
            }
            return true;
        }
        i = i + 1;
    }
    false
}

fn validate_member_literals(name: &JsonValue, digest: &JsonValue) -> (r: Result<(String, Vec<char>), String>)
    ensures
        match r {
            Ok((n, d)) => member_literals(*name, *digest) == Ok::<Seq<char>, Seq<char>>(n@)
                && string_literal(*digest) == Some(d@),
            Err(m) => member_literals(*name, *digest) == Err::<Seq<char>, Seq<char>>(m@),
        },
{
    let n = match literal_text(name) {
        Some(n) => n,
        None => {
            return Err("artifactLogicalName must be an exact string literal".to_owned());
        },
    };
    let d = match literal_text(digest) {
        Some(d) => d,
        None => {
            return Err("expectedSha256 must be an exact string literal".to_owned());
        },
    };
    if !valid_digest(d) {
        return Err("expectedSha256 must be 'sha256:' plus 64 lowercase hexadecimal digits".to_owned());
    }
    Ok((n.to_owned(), chars_of(d)))
}

fn validate_member_list(list: &JsonValue) -> (r: Result<Vec<String>, String>)
    ensures
        match r {
            Ok(names) => member_list(*list, Seq::empty(), Seq::empty()) == Ok::<
                Seq<Seq<char>>,
                Seq<char>,
            >(string_views(names@)),
            Err(m) => member_list(*list, Seq::empty(), Seq::empty()) == Err::<
                Seq<Seq<char>>,
                Seq<char>,
            >(m@),
        },
{
    let zero: Vec<u64> = vec![0u64];
    let none: Vec<u64> = Vec::new();
    let mut expression: &JsonValue = list;
    let mut names: Vec<String> = Vec::new();
    let mut digests: Vec<Vec<char>> = Vec::new();
    proof {
        assert(string_views(names@) =~= Seq::<Seq<char>>::empty());
        assert(views(digests@) =~= Seq::<Seq<char>>::empty());
    }
    loop
        invariant
            zero@ == seq![0u64],
            none@ == Seq::<u64>::empty(),
            names@.len() <= MAX_BINDING_MEMBERS,
            member_list(*expression, string_views(names@), views(digests@)) == member_list(
                *list,
                Seq::empty(),
                Seq::empty(),
            ),
        decreases 257 - names@.len(),
    {
        let ghost nv = string_views(names@);
        let ghost dv = views(digests@);
        let (head, args) = application_spine(expression);
        proof {
            assert(string_views(names@).len() == names@.len());
        }
        if exact_constant(head, LIST_NIL, zero.as_slice()) {
            if args.len() != 1 || !exact_constant(args[0], DIGEST_BINDING_MEMBER_V1, none.as_slice()) {
                return Err("List.nil has the wrong artifact-binding member type".to_owned());
            }
            if names.len() == 0 {
                return Err("artifact-binding member list must be nonempty".to_owned());
            }
            if !increasing(&names) {
                return Err("artifact-binding members must be strictly ordered by logical name".to_owned());
            }
            return Ok(names);
        }
        if !exact_constant(head, LIST_CONS, zero.as_slice()) || args.len() != 3 || !exact_constant(
            args[0],
            DIGEST_BINDING_MEMBER_V1,
            none.as_slice(),
        ) {
            return Err("members must be a direct List.cons/List.nil spine".to_owned());
        }
        let (member_head, member_args) = application_spine(args[1]);
        if !exact_constant(member_head, DIGEST_BINDING_MEMBER_CTOR_V1, none.as_slice())
            || member_args.len() != 3 {
            return Err("member must be an exact DigestBindingMemberV1.mk application".to_owned());
        }
        let (name, digest) = validate_member_literals(member_args[0], member_args[1])?;
        if contains_chars(&digests, digest.as_slice()) {
            return Err("artifact-binding member digests must be unique".to_owned());
        }
        if names.len() + 1 > MAX_BINDING_MEMBERS {
            return Err("artifact-binding member count exceeds 256".to_owned());
        }
        names.push(name);
        let ghost dd = digest@;
        digests.push(digest);
        proof {
            assert(string_views(names@) =~= nv.push(names@.last()@));
            assert(views(digests@) =~= dv.push(dd));
        }
        expression = args[2];
    }
}

/// Checks the artifact binding of a statement attributed to `claim_id` and
/// returns the logical names of the artifacts it binds, for the caller to
/// check against the artifact naming rules.
pub fn validate_digest_binding_v1(statement: &JsonValue, claim_id: &str) -> (r: Result<
    Vec<String>,
    AdapterError,
>)
    ensures
        match digest_binding(*statement, claim_id@) {
            Ok(names) => (r matches Ok(v) && string_views(v@) == names),
            Err(m) => (r matches Err(e) && binding_failure(e, m)),
        },
{
    let s = match statement.as_array() {
        Some(s) => s,
        None => {
            return Err(binding_error("statement wire is not an array".to_owned()));
        },
    };
    let envelope_ok = s.len() == 2 && match s[0].as_str() {
        Some(t) => str_equal(t, STATEMENT_ENCODING),
        None => false,
    };
    if !envelope_ok {
        return Err(binding_error("statement wire has no canonical encoding envelope".to_owned()));
    }
    let e = &s[1];
    let count = capped_marker_count(e);
    if count == 0 {
        let none: Vec<String> = Vec::new();
        proof {
            assert(string_views(none@) =~= Seq::<Seq<char>>::empty());
        }
        return Ok(none);
    }
    let empty_levels: Vec<u64> = Vec::new();
    let (head, args) = application_spine(e);
    let singular = exact_constant(head, DIGEST_BINDING_V1, empty_levels.as_slice());
    let set = exact_constant(head, DIGEST_BINDING_SET_V1, empty_levels.as_slice());
    if !singular && !set {
        return Err(binding_error(
            "artifact binding marker occurs below the statement root; bindings must be exact root applications".to_owned(),
        ));
    }
    if count != 1 {
        return Err(binding_error(
            "artifact binding marker must occur exactly once in an artifact-bound statement".to_owned(),
        ));
    }
    if singular && args.len() != 6 {
        let mut m = "DigestBindingV1 requires exactly 6 explicit arguments, found ".to_owned();
        push_decimal(&mut m, args.len() as u64);
        return Err(binding_error(m));
    }
    if set && args.len() != 4 {
        let mut m = "DigestBindingSetV1 requires exactly 4 explicit arguments, found ".to_owned();
        push_decimal(&mut m, args.len() as u64);
        return Err(binding_error(m));
    }
    let claim = match literal_text(args[0]) {
        Some(c) => c,
        None => {
            return Err(binding_error("DigestBindingV1 claimId must be an exact string literal".to_owned()));
        },
    };
    let schema = match literal_text(args[1]) {
        Some(c) => c,
        None => {
            return Err(binding_error(
                "DigestBindingV1 artifactSchema must be an exact string literal".to_owned(),
            ));
        },
    };
    if !str_equal(claim, claim_id) {
        let mut m = "artifact binding claimId '".to_owned();
        m.append(claim);
        m.append("' differs from attributed claim '");
        m.append(claim_id);
        m.append("'");
        return Err(binding_error(m));
    }
    let schema_chars = chars_of(schema);
    if schema_chars.len() == 0 || schema.as_bytes().len() > 4096 || contains_char(
        schema_chars.as_slice(),
        '\0',
    ) {
        return Err(binding_error(
            "DigestBindingV1 artifactSchema is empty, oversized, or contains NUL".to_owned(),
        ));
    }
    if singular {
        match validate_member_literals(args[2], args[3]) {
            Ok((name, _)) => {
                let mut names: Vec<String> = Vec::new();
                names.push(name);
                proof {
                    assert(string_views(names@) =~= seq![names@[0]@]);
                }
                Ok(names)
            },
            Err(m) => Err(binding_error(m)),
        }
    } else {
        match validate_member_list(args[2]) {
            Ok(names) => Ok(names),
            Err(m) => Err(binding_error(m)),
        }
    }
}

/// A statement without any binding marker is accepted and binds nothing.
pub proof fn lemma_plain_statement_binds_nothing(expression: JsonValue, claim: Seq<char>, statement: JsonValue)
    requires
        statement.spec_as_array() matches Some(s) && s.len() == 2 && s[0].spec_as_str() == Some(
            STATEMENT_ENCODING@,
        ) && s[1] == expression,
        marker_count(expression) == 0,
    ensures
        digest_binding(statement, claim) == Ok::<Seq<Seq<char>>, Seq<char>>(Seq::empty()),
{
}

/// Once a marker occurs anywhere in an accepted statement, it occurs
/// exactly once, as the head of the root application, and the claim it
/// names is the claim the statement is attributed to.
pub proof fn lemma_accepted_marker_is_single_root(expression: JsonValue, claim: Seq<char>, statement: JsonValue)
    requires
        statement.spec_as_array() matches Some(s) && s.len() == 2 && s[1] == expression,
        marker_count(expression) > 0,
        digest_binding(statement, claim) is Ok,
    ensures
        marker_count(expression) == 1,
        is_exact_constant(spine_head(expression), DIGEST_BINDING_V1@, Seq::empty())
            || is_exact_constant(spine_head(expression), DIGEST_BINDING_SET_V1@, Seq::empty()),
        string_literal(spine_args(expression)[0]) == Some(claim),
{
}

} // verus!
