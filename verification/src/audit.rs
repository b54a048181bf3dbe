//! Reconciliation of a compiled Lean audit with the registered claims: the
//! audit's own shape, both inventories, and each claim's exact identity,
//! axioms and statement.
use vstd::prelude::*;
use vstd::utf8::encode_utf8;
use crate::artifact::{binding_remediation, digest_binding, validate_digest_binding_v1};
use crate::digest::Sha256Digest;
use crate::inventory::{contains_chars, missing_from, sorted_set, sorted_set_of};
use crate::json::JsonValue;
use crate::lean::{
    failure, is_blank, is_claim_id, is_name, require_sorted_unique, strictly_increasing,
    validate_claim_id, validate_local_id, validate_name,
    AdapterError, AuditExemption, DeclarationKind, ExpectedClaim, AUDIT_OUTPUT, AXIOM, CONFIGURATION,
    ARTIFACT_BINDING, DECLARATION, EXPR_WIRE, INVENTORY, LEAN_ADAPTER_UNIT_SCHEMA, STATEMENT_DRIFT, LEAN_AUDIT_SCHEMA, is_relative_file,
    is_unit_id,
};
use crate::names::{is_environment_name, valid_environment_name};
use crate::names::{is_sha256_text, valid_digest};
use crate::text::{
    chars_of, debug_list, debug_set, debug_set_text, debug_strings, ends_with, starts_with, str_equal,
    string_views, trim, views,
};
use crate::wire::{fault_message, statement_digest, statement_digest_spec, STATEMENT_ENCODING};

verus! {

/// The most claims an audit or a registration may hold.
pub const MAX_CLAIMS: usize = 100000;

/// The most transitive axioms one audited declaration may list.
pub const MAX_AXIOMS: usize = 4096;

/// The most exemptions an audit may hold.
pub const MAX_EXEMPTIONS: usize = 100000;

/// One attributed declaration as the compiled audit reports it.
#[derive(Debug)]
pub struct AuditClaim {
    pub axioms: Vec<String>,
    pub claim_id: String,
    pub declaration: String,
    pub expr_wire: JsonValue,
    pub kind: DeclarationKind,
    pub module: String,
}

/// The compiled audit: every attributed claim and every exemption.
#[derive(Debug)]
pub struct AuditOutput {
    pub schema: String,
    pub statement_encoding: String,
    pub claims: Vec<AuditClaim>,
    pub exemptions: Vec<AuditExemption>,
}

/// A failure as plain values: its code, its message and the manifest path
/// it concerns, if any.
pub type Fault = (&'static str, Seq<char>, Option<Seq<char>>);

/// A fault that concerns no particular path.
pub open spec fn plain(code: &'static str, message: Seq<char>) -> Fault {
    (code, message, None)
}

/// The error `e` is the fault `f`, with no remediation.
pub open spec fn is_fault(e: AdapterError, f: Fault) -> bool {
    &&& e.code == f.0
    &&& e.message@ == f.1
    &&& match (e.path, f.2) {
        (Some(p), Some(q)) => p@ == q,
        (None, None) => true,
        _ => false,
    }
    &&& e.remediation is None
}

/// The declarations of the attributed claims.
pub open spec fn claim_declarations(claims: Seq<AuditClaim>) -> Seq<Seq<char>> {
    claims.map_values(|c: AuditClaim| c.declaration@)
}

/// The declarations of the exemptions.
pub open spec fn exemption_declarations(exemptions: Seq<AuditExemption>) -> Seq<Seq<char>> {
    exemptions.map_values(|e: AuditExemption| e.declaration@)
}

/// The fault of a name that is not a declaration or module name.
pub open spec fn name_fault(value: Seq<char>, kind: Seq<char>) -> Option<Fault> {
    if is_name(value) {
        None
    } else {
        Some(plain(AUDIT_OUTPUT, kind + " is empty, oversized, or contains NUL"@))
    }
}

/// What is wrong with one exemption, given the declarations exempted before
/// it and the attributed declarations.
pub open spec fn exemption_fault(
    exemption: AuditExemption,
    earlier: Seq<Seq<char>>,
    attributed: Seq<Seq<char>>,
) -> Option<Fault> {
    let d = exemption.declaration@;
    if name_fault(d, "exemption declaration"@) is Some {
        name_fault(d, "exemption declaration"@)
    } else if name_fault(exemption.module@, "exemption module"@) is Some {
        name_fault(exemption.module@, "exemption module"@)
    } else if trim(exemption.reason@).len() == 0 || encode_utf8(exemption.reason@).len() > 8192 {
        Some(plain(AUDIT_OUTPUT, "exemption '"@ + d + "' has an empty or oversized reason"@))
    } else if earlier.contains(d) {
        Some(plain(AUDIT_OUTPUT, "duplicate exemption for '"@ + d + "'"@))
    } else if attributed.contains(d) {
        Some(plain(AUDIT_OUTPUT, "declaration '"@ + d + "' is both attributed and exempt"@))
    } else {
        None
    }
}

/// The first fault among the first `n` exemptions.
pub open spec fn exemptions_fault(
    exemptions: Seq<AuditExemption>,
    n: nat,
    attributed: Seq<Seq<char>>,
) -> Option<Fault>
    decreases n,
{
    if n == 0 || n > exemptions.len() {
        None
    } else {
        match exemptions_fault(exemptions, (n - 1) as nat, attributed) {
            Some(f) => Some(f),
            None => exemption_fault(
                exemptions[n - 1],
                exemption_declarations(exemptions.take(n - 1)),
                attributed,
            ),
        }
    }
}

/// What is wrong with the shape of a compiled audit, if anything.
pub open spec fn output_fault(output: AuditOutput) -> Option<Fault> {
    let claims = output.claims@;
    let exemptions = output.exemptions@;
    if output.schema@ != LEAN_AUDIT_SCHEMA@ || output.statement_encoding@ != STATEMENT_ENCODING@ {
        Some(
            plain(
                AUDIT_OUTPUT,
                "unsupported Lean audit schema/encoding '"@ + output.schema@ + "'/ '"@
                    + output.statement_encoding@ + "'"@,
            ),
        )
    } else if claims.len() > MAX_CLAIMS || exemptions.len() > MAX_EXEMPTIONS {
        Some(plain(AUDIT_OUTPUT, "Lean audit collection exceeds configured limits"@))
    } else if !strictly_increasing(claim_declarations(claims)) {
        Some(plain(AUDIT_OUTPUT, "Lean audit claims are duplicated or not strictly sorted by declaration"@))
    } else {
        exemptions_fault(exemptions, exemptions.len(), claim_declarations(claims))
    }
}

fn fault(code: &'static str, message: String) -> (e: AdapterError)
    ensures
        failure(e, code, message@),
{
    AdapterError::new(code, message.as_str())
}

fn quoted(prefix: &str, body: &str, suffix: &str) -> (s: String)
    ensures
        s@ == prefix@ + body@ + suffix@,
{
    let mut s = prefix.to_owned();
    s.append(body);
    s.append(suffix);
    s
}

/// The declarations of the attributed claims, as character lists.
fn declarations_of(claims: &Vec<AuditClaim>) -> (out: Vec<Vec<char>>)
    ensures
        views(out@) == claim_declarations(claims@),
{
    let mut out: Vec<Vec<char>> = Vec::new();
    let mut i: usize = 0;
    while i < claims.len()
        invariant
            i <= claims@.len(),
            views(out@) == claim_declarations(claims@.take(i as int)),
        decreases claims@.len() - i,
    {
        out.push(chars_of(claims[i].declaration.as_str()));
        proof {
            assert(claim_declarations(claims@.take(i + 1)) =~= claim_declarations(
                claims@.take(i as int),
            ).push(claims@[i as int].declaration@));
            assert(views(out@) =~= claim_declarations(claims@.take(i + 1)));
        }
        i = i + 1;
    }
    proof {
        assert(claims@.take(claims@.len() as int) =~= claims@);
    }
    out
}

fn strings_increasing(items: &Vec<Vec<char>>) -> (b: bool)
    ensures
        b == strictly_increasing(views(items@)),
{
    let strings = crate::text::strings_of(items);
    crate::lean::increasing(&strings)
}

/// Checks the compiled audit's schema, encoding, limits, claim order and
/// exemptions.
pub fn validate_output(output: &AuditOutput) -> (r: Result<(), AdapterError>)
    ensures
        match output_fault(*output) {
            None => r is Ok,
            Some(f) => (r matches Err(e) && is_fault(e, f)),
        },
{
    if !str_equal(output.schema.as_str(), LEAN_AUDIT_SCHEMA) || !str_equal(
        output.statement_encoding.as_str(),
        STATEMENT_ENCODING,
    ) {
        let mut m = quoted("unsupported Lean audit schema/encoding '", output.schema.as_str(), "'/ '");
        m.append(output.statement_encoding.as_str());
        m.append("'");
        return Err(fault(AUDIT_OUTPUT, m));
    }
    if output.claims.len() > MAX_CLAIMS || output.exemptions.len() > MAX_EXEMPTIONS {
        return Err(fault(AUDIT_OUTPUT, "Lean audit collection exceeds configured limits".to_owned()));
    }
    let attributed = declarations_of(&output.claims);
    if !strings_increasing(&attributed) {
        return Err(
            fault(
                AUDIT_OUTPUT,
                "Lean audit claims are duplicated or not strictly sorted by declaration".to_owned(),
            ),
        );
    }
    let ghost exs = output.exemptions@;
    let ghost att = claim_declarations(output.claims@);
    let mut seen: Vec<Vec<char>> = Vec::new();
    let mut i: usize = 0;
    while i < output.exemptions.len()
        invariant
            i <= exs.len(),
            exs == output.exemptions@,
            att == claim_declarations(output.claims@),
            views(attributed@) == att,
            views(seen@) == exemption_declarations(exs.take(i as int)),
            exemptions_fault(exs, i as nat, att) is None,
            output_fault(*output) == exemptions_fault(exs, exs.len(), att),
        decreases exs.len() - i,
    {
        let exemption = &output.exemptions[i];
        proof {
            assert(exs.take(i + 1).take(i as int) =~= exs.take(i as int));
            assert(exemptions_fault(exs, (i + 1) as nat, att) == exemption_fault(
                exs[i as int],
                exemption_declarations(exs.take(i as int)),
                att,
            ));
            lemma_exemptions_fault_extends(exs, att, (i + 1) as nat, exs.len());
        }
        match validate_name(exemption.declaration.as_str(), "exemption declaration") {
            Ok(()) => {},
            Err(e) => {
                return Err(e);
            },
        }
        match validate_name(exemption.module.as_str(), "exemption module") {
            Ok(()) => {},
            Err(e) => {
                return Err(e);
            },
        }
        if is_blank(exemption.reason.as_str()) || exemption.reason.as_str().as_bytes().len() > 8192 {
            return Err(
                fault(
                    AUDIT_OUTPUT,
                    quoted("exemption '", exemption.declaration.as_str(), "' has an empty or oversized reason"),
                ),
            );
        }
        let d = chars_of(exemption.declaration.as_str());
        if contains_chars(&seen, d.as_slice()) {
            return Err(
                fault(
                    AUDIT_OUTPUT,
                    quoted("duplicate exemption for '", exemption.declaration.as_str(), "'"),
                ),
            );
        }
        if contains_chars(&attributed, d.as_slice()) {
            return Err(
                fault(
                    AUDIT_OUTPUT,
                    quoted("declaration '", exemption.declaration.as_str(), "' is both attributed and exempt"),
                ),
            );
        }
        let ghost before = views(seen@);
        seen.push(d);
        proof {
            assert(exemption_declarations(exs.take(i + 1)) =~= exemption_declarations(
                exs.take(i as int),
            ).push(exs[i as int].declaration@));
            assert(views(seen@) =~= before.push(exs[i as int].declaration@));
        }
        i = i + 1;
    }
    Ok(())
}

proof fn lemma_exemptions_fault_extends(
    exemptions: Seq<AuditExemption>,
    attributed: Seq<Seq<char>>,
    m: nat,
    n: nat,
)
    requires
        m <= n <= exemptions.len(),
    ensures
        exemptions_fault(exemptions, m, attributed) is Some ==> exemptions_fault(exemptions, n, attributed)
            == exemptions_fault(exemptions, m, attributed),
    decreases n - m,
{
    if m < n {
        lemma_exemptions_fault_extends(exemptions, attributed, m, (n - 1) as nat);
    }
}

/// The first fault among the names `values[..n]`.
pub open spec fn names_fault(values: Seq<Seq<char>>, n: nat, kind: Seq<char>) -> Option<Fault>
    decreases n,
{
    if n == 0 || n > values.len() {
        None
    } else {
        match names_fault(values, (n - 1) as nat, kind) {
            Some(f) => Some(f),
            None => name_fault(values[n - 1], kind),
        }
    }
}

/// The fault of a malformed claim identifier.
pub open spec fn claim_id_fault(id: Seq<char>) -> Option<Fault> {
    if is_claim_id(id) {
        None
    } else {
        Some(plain(CONFIGURATION, "invalid canonical claim ID '"@ + id + "'"@))
    }
}

/// The claim identifiers of attributed claims.
pub open spec fn claim_ids(claims: Seq<AuditClaim>) -> Seq<Seq<char>> {
    claims.map_values(|c: AuditClaim| c.claim_id@)
}

/// What is wrong with one attributed claim, given the identifiers and
/// declarations of the claims before it.
pub open spec fn attributed_fault(claim: AuditClaim, ids: Seq<Seq<char>>, decls: Seq<Seq<char>>) -> Option<
    Fault,
> {
    let id = claim.claim_id@;
    let d = claim.declaration@;
    let axioms = string_views(claim.axioms@);
    if claim_id_fault(id) is Some {
        claim_id_fault(id)
    } else if name_fault(d, "attributed declaration"@) is Some {
        name_fault(d, "attributed declaration"@)
    } else if name_fault(claim.module@, "declaring module"@) is Some {
        name_fault(claim.module@, "declaring module"@)
    } else if ids.contains(id) {
        Some(plain(INVENTORY, "duplicate attributed claim ID '"@ + id + "'"@))
    } else if decls.contains(d) {
        Some(plain(INVENTORY, "duplicate attributed declaration '"@ + d + "'"@))
    } else if axioms.len() > MAX_AXIOMS || !strictly_increasing(axioms) {
        Some(
            plain(
                AUDIT_OUTPUT,
                "axioms for '"@ + d + "' exceed limits or are not strictly sorted and unique"@,
            ),
        )
    } else if names_fault(axioms, axioms.len(), "audited axiom"@) is Some {
        names_fault(axioms, axioms.len(), "audited axiom"@)
    } else {
        match statement_digest_spec(claim.expr_wire) {
            Err(w) => Some(plain(EXPR_WIRE, "invalid ExprWire for '"@ + d + "': "@ + fault_message(w))),
            Ok(_) => None,
        }
    }
}

/// The first fault among the first `n` attributed claims.
pub open spec fn attributed_faults(claims: Seq<AuditClaim>, n: nat) -> Option<Fault>
    decreases n,
{
    if n == 0 || n > claims.len() {
        None
    } else {
        match attributed_faults(claims, (n - 1) as nat) {
            Some(f) => Some(f),
            None => attributed_fault(
                claims[n - 1],
                claim_ids(claims.take(n - 1)),
                claim_declarations(claims.take(n - 1)),
            ),
        }
    }
}

proof fn lemma_attributed_faults_extends(claims: Seq<AuditClaim>, m: nat, n: nat)
    requires
        m <= n <= claims.len(),
    ensures
        attributed_faults(claims, m) is Some ==> attributed_faults(claims, n) == attributed_faults(
            claims,
            m,
        ),
    decreases n - m,
{
    if m < n {
        lemma_attributed_faults_extends(claims, m, (n - 1) as nat);
    }
}

proof fn lemma_names_fault_extends(values: Seq<Seq<char>>, kind: Seq<char>, m: nat, n: nat)
    requires
        m <= n <= values.len(),
    ensures
        names_fault(values, m, kind) is Some ==> names_fault(values, n, kind) == names_fault(
            values,
            m,
            kind,
        ),
    decreases n - m,
{
    if m < n {
        lemma_names_fault_extends(values, kind, m, (n - 1) as nat);
    }
}

fn fault_of(f_code: &'static str, message: String) -> (e: AdapterError)
    ensures
        is_fault(e, plain(f_code, message@)),
{
    AdapterError::new(f_code, message.as_str())
}

/// Checks each of `values` as a name of the given kind, in order.
fn check_names(values: &Vec<String>, kind: &str) -> (r: Result<(), AdapterError>)
    ensures
        match names_fault(string_views(values@), values@.len(), kind@) {
            None => r is Ok,
            Some(f) => (r matches Err(e) && is_fault(e, f)),
        },
{
    let ghost vs = string_views(values@);
    let mut i: usize = 0;
    while i < values.len()
        invariant
            i <= values@.len(),
            vs == string_views(values@),
            names_fault(vs, i as nat, kind@) is None,
        decreases values@.len() - i,
    {
        proof {
            assert(vs[i as int] == values@[i as int]@);
            lemma_names_fault_extends(vs, kind@, (i + 1) as nat, vs.len());
        }
        match validate_name(values[i].as_str(), kind) {
            Ok(()) => {},
            Err(e) => {
                return Err(e);
            },
        }
        i = i + 1;
    }
    Ok(())
}

fn id_check(value: &str) -> (r: Result<(), AdapterError>)
    ensures
        match claim_id_fault(value@) {
            None => r is Ok,
            Some(f) => (r matches Err(e) && is_fault(e, f)),
        },
{
    validate_claim_id(value)
}

/// Validates every attributed claim in order and returns the sorted claim
/// identifiers.
pub fn actual_inventory(output: &AuditOutput) -> (r: Result<Vec<String>, AdapterError>)
    ensures
        match attributed_faults(output.claims@, output.claims@.len()) {
            None => (r matches Ok(ids) && string_views(ids@) == sorted_set(claim_ids(output.claims@))
                && crate::inventory::same_values(string_views(ids@), claim_ids(output.claims@))),
            Some(f) => (r matches Err(e) && is_fault(e, f)),
        },
{
    let ghost cs = output.claims@;
    let mut ids: Vec<Vec<char>> = Vec::new();
    let mut decls: Vec<Vec<char>> = Vec::new();
    let mut i: usize = 0;
    while i < output.claims.len()
        invariant
            i <= cs.len(),
            cs == output.claims@,
            views(ids@) == claim_ids(cs.take(i as int)),
            views(decls@) == claim_declarations(cs.take(i as int)),
            attributed_faults(cs, i as nat) is None,
        decreases cs.len() - i,
    {
        let claim = &output.claims[i];
        proof {
            assert(cs.take(i + 1).take(i as int) =~= cs.take(i as int));
            lemma_attributed_faults_extends(cs, (i + 1) as nat, cs.len());
        }
        id_check(claim.claim_id.as_str())?;
        validate_name(claim.declaration.as_str(), "attributed declaration")?;
        validate_name(claim.module.as_str(), "declaring module")?;
        let id = chars_of(claim.claim_id.as_str());
        let d = chars_of(claim.declaration.as_str());
        if contains_chars(&ids, id.as_slice()) {
            return Err(fault_of(INVENTORY, quoted("duplicate attributed claim ID '", claim.claim_id.as_str(), "'")));
        }
        if contains_chars(&decls, d.as_slice()) {
            return Err(
                fault_of(
                    INVENTORY,
                    quoted("duplicate attributed declaration '", claim.declaration.as_str(), "'"),
                ),
            );
        }
        if claim.axioms.len() > MAX_AXIOMS || !crate::lean::increasing(&claim.axioms) {
            return Err(
                fault_of(
                    AUDIT_OUTPUT,
                    quoted(
                        "axioms for '",
                        claim.declaration.as_str(),
                        "' exceed limits or are not strictly sorted and unique",
                    ),
                ),
            );
        }
        check_names(&claim.axioms, "audited axiom")?;
        match statement_digest(&claim.expr_wire) {
            Ok(_) => {},
            Err(w) => {
                let mut m = quoted("invalid ExprWire for '", claim.declaration.as_str(), "': ");
                m.append(w.message().as_str());
                return Err(fault_of(EXPR_WIRE, m));
            },
        }
        let ghost before_ids = views(ids@);
        let ghost before_decls = views(decls@);
        ids.push(id);
        decls.push(d);
        proof {
            assert(claim_ids(cs.take(i + 1)) =~= claim_ids(cs.take(i as int)).push(cs[i as int].claim_id@));
            assert(claim_declarations(cs.take(i + 1)) =~= claim_declarations(cs.take(i as int)).push(
                cs[i as int].declaration@,
            ));
            assert(views(ids@) =~= before_ids.push(cs[i as int].claim_id@));
            assert(views(decls@) =~= before_decls.push(cs[i as int].declaration@));
        }
        i = i + 1;
    }
    proof {
        assert(cs.take(cs.len() as int) =~= cs);
    }
    let sorted = sorted_set_of(&ids);
    Ok(crate::text::strings_of(&sorted))
}

/// How a declaration kind is spelled in messages.
pub open spec fn kind_name(kind: DeclarationKind) -> Seq<char> {
    match kind {
        DeclarationKind::Axiom => "Axiom"@,
        DeclarationKind::Definition => "Definition"@,
        DeclarationKind::Theorem => "Theorem"@,
        DeclarationKind::Opaque => "Opaque"@,
        DeclarationKind::Quotient => "Quotient"@,
        DeclarationKind::Inductive => "Inductive"@,
        DeclarationKind::Constructor => "Constructor"@,
        DeclarationKind::Recursor => "Recursor"@,
    }
}

/// How a declaration kind is spelled in messages.
pub fn kind_label(kind: DeclarationKind) -> (s: &'static str)
    ensures
        s@ == kind_name(kind),
{
    match kind {
        DeclarationKind::Axiom => "Axiom",
        DeclarationKind::Definition => "Definition",
        DeclarationKind::Theorem => "Theorem",
        DeclarationKind::Opaque => "Opaque",
        DeclarationKind::Quotient => "Quotient",
        DeclarationKind::Inductive => "Inductive",
        DeclarationKind::Constructor => "Constructor",
        DeclarationKind::Recursor => "Recursor",
    }
}

/// What is wrong with a pinned statement digest's spelling, if anything:
/// `sha256:` followed by 64 lowercase hexadecimal digits.
pub open spec fn pinned_digest_fault(value: Seq<char>) -> Option<Seq<char>> {
    if !(value.len() >= 7 && value.take(7) == "sha256:"@) {
        Some("statement_sha256 must use canonical 'sha256:<hex>' spelling"@)
    } else if !is_sha256_text(value) {
        Some("invalid statement_sha256: expected 64 lowercase hexadecimal digits"@)
    } else {
        None
    }
}

/// Checks the spelling of a pinned statement digest.
pub fn parse_prefixed_digest(value: &str) -> (r: Result<(), String>)
    ensures
        match pinned_digest_fault(value@) {
            None => r is Ok,
            Some(m) => (r matches Err(e) && e@ == m),
        },
{
    let s = chars_of(value);
    let prefix = chars_of("sha256:");
    proof {
        reveal_strlit("sha256:");
    }
    let has_prefix = s.len() >= 7 && crate::text::matches_at(s.as_slice(), prefix.as_slice(), 0);
    proof {
        if s@.len() >= 7 {
            assert(s@.subrange(0, 7) =~= s@.take(7));
        }
    }
    if !has_prefix {
        return Err("statement_sha256 must use canonical 'sha256:<hex>' spelling".to_owned());
    }
    if !valid_digest(value) {
        return Err("invalid statement_sha256: expected 64 lowercase hexadecimal digits".to_owned());
    }
    Ok(())
}

/// The axioms a claim classifies as project axioms.
pub open spec fn project_axiom_names(pairs: Seq<(String, String)>) -> Seq<Seq<char>> {
    pairs.map_values(|p: (String, String)| p.0@)
}

/// The assumptions the project axioms are registered as, in axiom order.
pub open spec fn project_assumptions(pairs: Seq<(String, String)>) -> Seq<Seq<char>> {
    pairs.map_values(|p: (String, String)| p.1@)
}

/// The first fault among the first `n` foundational axioms: a bad name, or
/// an axiom also classified as a project axiom.
pub open spec fn foundational_fault(axioms: Seq<Seq<char>>, n: nat, project: Seq<Seq<char>>) -> Option<Fault>
    decreases n,
{
    if n == 0 || n > axioms.len() {
        None
    } else {
        match foundational_fault(axioms, (n - 1) as nat, project) {
            Some(f) => Some(f),
            None => if name_fault(axioms[n - 1], "foundational axiom"@) is Some {
                name_fault(axioms[n - 1], "foundational axiom"@)
            } else if project.contains(axioms[n - 1]) {
                Some(plain(AXIOM, "axiom '"@ + axioms[n - 1] + "' has two classifications"@))
            } else {
                None
            },
        }
    }
}

/// The first fault among the first `n` project axiom classifications.
pub open spec fn project_fault(pairs: Seq<(String, String)>, n: nat) -> Option<Fault>
    decreases n,
{
    if n == 0 || n > pairs.len() {
        None
    } else {
        match project_fault(pairs, (n - 1) as nat) {
            Some(f) => Some(f),
            None => if name_fault(pairs[n - 1].0@, "project axiom"@) is Some {
                name_fault(pairs[n - 1].0@, "project axiom"@)
            } else {
                claim_id_fault(pairs[n - 1].1@)
            },
        }
    }
}

/// The claim identifiers of registered claims.
pub open spec fn expected_ids(claims: Seq<ExpectedClaim>) -> Seq<Seq<char>> {
    claims.map_values(|c: ExpectedClaim| c.claim_id@)
}

/// The declarations of registered claims.
pub open spec fn expected_declarations(claims: Seq<ExpectedClaim>) -> Seq<Seq<char>> {
    claims.map_values(|c: ExpectedClaim| c.declaration@)
}

/// What is wrong with one registered claim, given the identifiers and
/// declarations registered before it.
pub open spec fn registered_fault(claim: ExpectedClaim, ids: Seq<Seq<char>>, decls: Seq<Seq<char>>) -> Option<
    Fault,
> {
    let id = claim.claim_id@;
    let d = claim.declaration@;
    let foundational = string_views(claim.foundational_axioms@);
    let project = claim.project_axioms@;
    if claim_id_fault(id) is Some {
        claim_id_fault(id)
    } else if name_fault(d, "expected declaration"@) is Some {
        name_fault(d, "expected declaration"@)
    } else if claim.declaration_kind != DeclarationKind::Theorem {
        Some(
            plain(
                DECLARATION,
                "public claim '"@ + id + "' expects non-theorem declaration kind "@ + kind_name(
                    claim.declaration_kind,
                ),
            ),
        )
    } else if ids.contains(id) {
        Some(plain(INVENTORY, "duplicate registered claim ID '"@ + id + "'"@))
    } else if decls.contains(d) {
        Some(plain(INVENTORY, "duplicate registered declaration '"@ + d + "'"@))
    } else if !strictly_increasing(foundational) {
        Some(
            plain(
                AXIOM,
                "foundational axioms for '"@ + id + "' are duplicated or not strictly sorted"@,
            ),
        )
    } else if foundational_fault(foundational, foundational.len(), project_axiom_names(project)) is Some {
        foundational_fault(foundational, foundational.len(), project_axiom_names(project))
    } else if claim.statement_sha256 matches Some(pin) && pinned_digest_fault(pin@) is Some {
        Some(
            (
                CONFIGURATION,
                pinned_digest_fault(claim.statement_sha256->0@)->0,
                Some("claim_inventory["@ + id + "].statement_sha256"@),
            ),
        )
    } else {
        project_fault(project, project.len())
    }
}

/// The first fault among the first `n` registered claims.
pub open spec fn registered_faults(claims: Seq<ExpectedClaim>, n: nat) -> Option<Fault>
    decreases n,
{
    if n == 0 || n > claims.len() {
        None
    } else {
        match registered_faults(claims, (n - 1) as nat) {
            Some(f) => Some(f),
            None => registered_fault(
                claims[n - 1],
                expected_ids(claims.take(n - 1)),
                expected_declarations(claims.take(n - 1)),
            ),
        }
    }
}

proof fn lemma_registered_faults_extends(claims: Seq<ExpectedClaim>, m: nat, n: nat)
    requires
        m <= n <= claims.len(),
    ensures
        registered_faults(claims, m) is Some ==> registered_faults(claims, n) == registered_faults(
            claims,
            m,
        ),
    decreases n - m,
{
    if m < n {
        lemma_registered_faults_extends(claims, m, (n - 1) as nat);
    }
}

proof fn lemma_foundational_fault_extends(axioms: Seq<Seq<char>>, project: Seq<Seq<char>>, m: nat, n: nat)
    requires
        m <= n <= axioms.len(),
    ensures
        foundational_fault(axioms, m, project) is Some ==> foundational_fault(axioms, n, project)
            == foundational_fault(axioms, m, project),
    decreases n - m,
{
    if m < n {
        lemma_foundational_fault_extends(axioms, project, m, (n - 1) as nat);
    }
}

proof fn lemma_project_fault_extends(pairs: Seq<(String, String)>, m: nat, n: nat)
    requires
        m <= n <= pairs.len(),
    ensures
        project_fault(pairs, m) is Some ==> project_fault(pairs, n) == project_fault(pairs, m),
    decreases n - m,
{
    if m < n {
        lemma_project_fault_extends(pairs, m, (n - 1) as nat);
    }
}

fn project_names_of(pairs: &Vec<(String, String)>) -> (out: Vec<Vec<char>>)
    ensures
        views(out@) == project_axiom_names(pairs@),
{
    let mut out: Vec<Vec<char>> = Vec::new();
    let mut i: usize = 0;
    while i < pairs.len()
        invariant
            i <= pairs@.len(),
            views(out@) == project_axiom_names(pairs@.take(i as int)),
        decreases pairs@.len() - i,
    {
        out.push(chars_of(pairs[i].0.as_str()));
        proof {
            assert(project_axiom_names(pairs@.take(i + 1)) =~= project_axiom_names(
                pairs@.take(i as int),
            ).push(pairs@[i as int].0@));
            assert(views(out@) =~= project_axiom_names(pairs@.take(i + 1)));
        }
        i = i + 1;
    }
    proof {
        assert(pairs@.take(pairs@.len() as int) =~= pairs@);
    }
    out
}

fn check_foundational(axioms: &Vec<String>, project: &Vec<(String, String)>) -> (r: Result<
    (),
    AdapterError,
>)
    ensures
        match foundational_fault(
            string_views(axioms@),
            axioms@.len(),
            project_axiom_names(project@),
        ) {
            None => r is Ok,
            Some(f) => (r matches Err(e) && is_fault(e, f)),
        },
{
    let ghost vs = string_views(axioms@);
    let names = project_names_of(project);
    let mut i: usize = 0;
    while i < axioms.len()
        invariant
            i <= axioms@.len(),
            vs == string_views(axioms@),
            views(names@) == project_axiom_names(project@),
            foundational_fault(vs, i as nat, views(names@)) is None,
        decreases axioms@.len() - i,
    {
        proof {
            assert(vs[i as int] == axioms@[i as int]@);
            lemma_foundational_fault_extends(vs, views(names@), (i + 1) as nat, vs.len());
        }
        validate_name(axioms[i].as_str(), "foundational axiom")?;
        let a = chars_of(axioms[i].as_str());
        if contains_chars(&names, a.as_slice()) {
            return Err(fault_of(AXIOM, quoted("axiom '", axioms[i].as_str(), "' has two classifications")));
        }
        i = i + 1;
    }
    Ok(())
}

fn check_project(pairs: &Vec<(String, String)>) -> (r: Result<(), AdapterError>)
    ensures
        match project_fault(pairs@, pairs@.len()) {
            None => r is Ok,
            Some(f) => (r matches Err(e) && is_fault(e, f)),
        },
{
    let mut i: usize = 0;
    while i < pairs.len()
        invariant
            i <= pairs@.len(),
            project_fault(pairs@, i as nat) is None,
        decreases pairs@.len() - i,
    {
        proof {
            lemma_project_fault_extends(pairs@, (i + 1) as nat, pairs@.len());
        }
        validate_name(pairs[i].0.as_str(), "project axiom")?;
        id_check(pairs[i].1.as_str())?;
        i = i + 1;
    }
    Ok(())
}

/// Validates every registered claim in order and returns the sorted claim
/// identifiers.
pub fn expected_inventory(claims: &Vec<ExpectedClaim>) -> (r: Result<Vec<String>, AdapterError>)
    ensures
        match registered_faults(claims@, claims@.len()) {
            None => (r matches Ok(ids) && string_views(ids@) == sorted_set(expected_ids(claims@))
                && crate::inventory::same_values(string_views(ids@), expected_ids(claims@))),
            Some(f) => (r matches Err(e) && is_fault(e, f)),
        },
{
    let ghost cs = claims@;
    let mut ids: Vec<Vec<char>> = Vec::new();
    let mut decls: Vec<Vec<char>> = Vec::new();
    let mut i: usize = 0;
    while i < claims.len()
        invariant
            i <= cs.len(),
            cs == claims@,
            views(ids@) == expected_ids(cs.take(i as int)),
            views(decls@) == expected_declarations(cs.take(i as int)),
            registered_faults(cs, i as nat) is None,
        decreases cs.len() - i,
    {
        let claim = &claims[i];
        proof {
            assert(cs.take(i + 1).take(i as int) =~= cs.take(i as int));
            lemma_registered_faults_extends(cs, (i + 1) as nat, cs.len());
        }
        id_check(claim.claim_id.as_str())?;
        validate_name(claim.declaration.as_str(), "expected declaration")?;
        if claim.declaration_kind != DeclarationKind::Theorem {
            let mut m = quoted("public claim '", claim.claim_id.as_str(), "' expects non-theorem declaration kind ");
            m.append(kind_label(claim.declaration_kind));
            return Err(fault_of(DECLARATION, m));
        }
        let id = chars_of(claim.claim_id.as_str());
        let d = chars_of(claim.declaration.as_str());
        if contains_chars(&ids, id.as_slice()) {
            return Err(fault_of(INVENTORY, quoted("duplicate registered claim ID '", claim.claim_id.as_str(), "'")));
        }
        if contains_chars(&decls, d.as_slice()) {
            return Err(
                fault_of(
                    INVENTORY,
                    quoted("duplicate registered declaration '", claim.declaration.as_str(), "'"),
                ),
            );
        }
        if !crate::lean::increasing(&claim.foundational_axioms) {
            return Err(
                fault_of(
                    AXIOM,
                    quoted(
                        "foundational axioms for '",
                        claim.claim_id.as_str(),
                        "' are duplicated or not strictly sorted",
                    ),
                ),
            );
        }
        check_foundational(&claim.foundational_axioms, &claim.project_axioms)?;
        match &claim.statement_sha256 {
            Some(pin) => match parse_prefixed_digest(pin.as_str()) {
                Ok(()) => {},
                Err(m) => {
                    let path = quoted("claim_inventory[", claim.claim_id.as_str(), "].statement_sha256");
                    return Err(AdapterError::new(CONFIGURATION, m.as_str()).at(path.as_str()));
                },
            },
            None => {},
        }
        check_project(&claim.project_axioms)?;
        let ghost before_ids = views(ids@);
        let ghost before_decls = views(decls@);
        ids.push(id);
        decls.push(d);
        proof {
            assert(expected_ids(cs.take(i + 1)) =~= expected_ids(cs.take(i as int)).push(cs[i as int].claim_id@));
            assert(expected_declarations(cs.take(i + 1)) =~= expected_declarations(cs.take(i as int)).push(
                cs[i as int].declaration@,
            ));
            assert(views(ids@) =~= before_ids.push(cs[i as int].claim_id@));
            assert(views(decls@) =~= before_decls.push(cs[i as int].declaration@));
        }
        i = i + 1;
    }
    proof {
        assert(cs.take(cs.len() as int) =~= cs);
    }
    let sorted = sorted_set_of(&ids);
    Ok(crate::text::strings_of(&sorted))
}

/// Every axiom a registered claim classifies, foundational then project.
pub open spec fn classified_axioms(claim: ExpectedClaim) -> Seq<Seq<char>> {
    string_views(claim.foundational_axioms@) + project_axiom_names(claim.project_axioms@)
}

/// `sorryAx`, under any namespace.
pub open spec fn is_sorry(name: Seq<char>) -> bool {
    name == "sorryAx"@ || ends_with(name, ".sorryAx"@)
}

/// Whether some axiom is `sorryAx`.
pub open spec fn depends_on_sorry(axioms: Seq<Seq<char>>) -> bool {
    exists|i: int| 0 <= i < axioms.len() && #[trigger] is_sorry(axioms[i])
}

/// The message for a claim whose compiled declaration is not the registered one.
pub open spec fn drift_message(expected: ExpectedClaim, actual: AuditClaim) -> Seq<char> {
    "compiled declaration identity drift for '"@ + expected.claim_id@ + "': expected '"@
        + expected.declaration@ + "' ("@ + kind_name(expected.declaration_kind) + "), found '"@
        + actual.declaration@ + "' ("@ + kind_name(actual.kind) + ")"@
}

/// The message for a claim whose axioms are not exactly the classified ones.
pub open spec fn axiom_mismatch_message(expected: ExpectedClaim, actual: AuditClaim) -> Seq<char> {
    let e = sorted_set(classified_axioms(expected));
    let a = sorted_set(string_views(actual.axioms@));
    "exact transitive axiom inventory differs for '"@ + actual.declaration@ + "'; missing="@
        + debug_strings(missing_from(e, a)) + ", unknown="@ + debug_strings(missing_from(a, e))
}

/// The remediation of an axiom mismatch.
pub open spec fn axiom_mismatch_remediation() -> Seq<char> {
    "classify every compiled axiom explicitly and remove stale classifications"@
}

/// What one verified claim yields: its statement digest, its foundational
/// axioms, the assumptions its project axioms stand for (each set sorted),
/// and the logical names of the artifacts its statement binds.
#[derive(Debug)]
pub struct ClaimVerdict {
    pub statement_sha256: Sha256Digest,
    pub foundational_axioms: Vec<String>,
    pub project_assumptions: Vec<String>,
    pub bound_artifacts: Vec<String>,
}

/// A failure as plain values: code, message, path and remediation.
pub type Failure = (&'static str, Seq<char>, Option<Seq<char>>, Option<Seq<char>>);

/// A fault with no remediation.
pub open spec fn bare(f: Fault) -> Failure {
    (f.0, f.1, f.2, None)
}

/// A failure with no path.
pub open spec fn remedied(code: &'static str, message: Seq<char>, remediation: Seq<char>) -> Failure {
    (code, message, None, Some(remediation))
}

/// The error `e` is the failure `f`.
pub open spec fn is_failure(e: AdapterError, f: Failure) -> bool {
    &&& e.code == f.0
    &&& e.message@ == f.1
    &&& match (e.path, f.2) {
        (Some(p), Some(q)) => p@ == q,
        (None, None) => true,
        _ => false,
    }
    &&& match (e.remediation, f.3) {
        (Some(p), Some(q)) => p@ == q,
        (None, None) => true,
        _ => false,
    }
}

/// A verdict as plain values: digest, foundational axioms, project
/// assumptions and bound artifacts.
pub type VerdictView = (Seq<char>, Seq<Seq<char>>, Seq<Seq<char>>, Seq<Seq<char>>);

/// The plain values of a verdict.
pub open spec fn verdict_view(v: ClaimVerdict) -> VerdictView {
    (
        v.statement_sha256@,
        string_views(v.foundational_axioms@),
        string_views(v.project_assumptions@),
        string_views(v.bound_artifacts@),
    )
}

/// What comparing a registered claim with its compiled counterpart yields.
#[verifier::opaque]
pub open spec fn claim_outcome(expected: ExpectedClaim, actual: AuditClaim) -> Result<VerdictView, Failure> {
    if expected.declaration@ != actual.declaration@ || expected.declaration_kind != actual.kind {
        Err(bare(plain(DECLARATION, drift_message(expected, actual))))
    } else if depends_on_sorry(string_views(actual.axioms@)) {
        Err(bare(plain(AXIOM, "'"@ + actual.declaration@ + "' transitively depends on sorryAx"@)))
    } else if sorted_set(classified_axioms(expected)) != sorted_set(string_views(actual.axioms@)) {
        Err(remedied(AXIOM, axiom_mismatch_message(expected, actual), axiom_mismatch_remediation()))
    } else {
        match statement_digest_spec(actual.expr_wire) {
            Err(w) => Err(
                bare(
                    plain(
                        EXPR_WIRE,
                        "invalid ExprWire for '"@ + actual.declaration@ + "': "@ + fault_message(w),
                    ),
                ),
            ),
            Ok(d) => match digest_binding(actual.expr_wire, actual.claim_id@) {
                Err(m) => Err(remedied(ARTIFACT_BINDING, m, binding_remediation())),
                Ok(names) => Ok(
                    (
                        d,
                        sorted_set(string_views(expected.foundational_axioms@)),
                        sorted_set(project_assumptions(expected.project_axioms@)),
                        names,
                    ),
                ),
            },
        }
    }
}

/// `r` is what `claim_outcome` says.
pub open spec fn claim_verdict(
    expected: ExpectedClaim,
    actual: AuditClaim,
    r: Result<ClaimVerdict, AdapterError>,
) -> bool {
    match claim_outcome(expected, actual) {
        Ok(x) => (r matches Ok(v) && verdict_view(v) == x),
        Err(f) => (r matches Err(e) && is_failure(e, f)),
    }
}

fn sorry_dependency(axioms: &Vec<String>) -> (b: bool)
    ensures
        b == depends_on_sorry(string_views(axioms@)),
{
    let sorry = chars_of("sorryAx");
    let dotted = chars_of(".sorryAx");
    let mut i: usize = 0;
    while i < axioms.len()
        invariant
            i <= axioms@.len(),
            sorry@ == "sorryAx"@,
            dotted@ == ".sorryAx"@,
            forall|k: int| 0 <= k < i ==> !is_sorry(#[trigger] string_views(axioms@)[k]),
        decreases axioms@.len() - i,
    {
        let a = chars_of(axioms[i].as_str());
        proof {
            assert(string_views(axioms@)[i as int] == a@);
        }
        let exact = crate::inventory::compare_chars(a.as_slice(), sorry.as_slice()) == 0;
        let suffix = a.len() >= dotted.len() && crate::text::matches_at(
            a.as_slice(),
            dotted.as_slice(),
            a.len() - dotted.len(),
        );
        if exact || suffix {
            proof {
                assert(is_sorry(string_views(axioms@)[i as int]));
            }
            return true;
        }
        proof {
            if a@.len() < dotted@.len() {
                assert(!ends_with(a@, dotted@));
            }
        }
        i = i + 1;
    }
    false
}

fn classified_of(claim: &ExpectedClaim) -> (out: Vec<Vec<char>>)
    ensures
        views(out@) == classified_axioms(*claim),
{
    let mut out = crate::text::char_lists(&claim.foundational_axioms);
    let names = project_names_of(&claim.project_axioms);
    let mut i: usize = 0;
    let ghost start = views(out@);
    while i < names.len()
        invariant
            i <= names@.len(),
            start == string_views(claim.foundational_axioms@),
            views(out@) == start + views(names@).take(i as int),
        decreases names@.len() - i,
    {
        let ghost before = views(out@);
        let item = names[i].clone();
        proof {
            assert(item@ == names@[i as int]@);
        }
        out.push(item);
        proof {
            assert(views(out@) =~= before.push(names@[i as int]@));
            assert(views(names@).take(i + 1) =~= views(names@).take(i as int).push(names@[i as int]@));
            assert(views(out@) =~= start + views(names@).take(i + 1));
        }
        i = i + 1;
    }
    proof {
        assert(views(names@).take(names@.len() as int) =~= views(names@));
    }
    out
}

fn assumptions_of(pairs: &Vec<(String, String)>) -> (out: Vec<Vec<char>>)
    ensures
        views(out@) == project_assumptions(pairs@),
{
    let mut out: Vec<Vec<char>> = Vec::new();
    let mut i: usize = 0;
    while i < pairs.len()
        invariant
            i <= pairs@.len(),
            views(out@) == project_assumptions(pairs@.take(i as int)),
        decreases pairs@.len() - i,
    {
        out.push(chars_of(pairs[i].1.as_str()));
        proof {
            assert(project_assumptions(pairs@.take(i + 1)) =~= project_assumptions(
                pairs@.take(i as int),
            ).push(pairs@[i as int].1@));
            assert(views(out@) =~= project_assumptions(pairs@.take(i + 1)));
        }
        i = i + 1;
    }
    proof {
        assert(pairs@.take(pairs@.len() as int) =~= pairs@);
    }
    out
}

/// Compares one registered claim with its compiled counterpart: the same
/// declaration and kind, no `sorryAx`, exactly the classified axioms, a
/// well-formed statement wire and a well-formed artifact binding.
pub fn verify_claim(expected: &ExpectedClaim, actual: &AuditClaim) -> (r: Result<ClaimVerdict, AdapterError>)
    ensures
        claim_verdict(*expected, *actual, r),
{
    proof {
        reveal(claim_outcome);
    }
    if !str_equal(expected.declaration.as_str(), actual.declaration.as_str())
        || expected.declaration_kind != actual.kind {
        let mut m = quoted(
            "compiled declaration identity drift for '",
            expected.claim_id.as_str(),
            "': expected '",
        );
        m.append(expected.declaration.as_str());
        m.append("' (");
        m.append(kind_label(expected.declaration_kind));
        m.append("), found '");
        m.append(actual.declaration.as_str());
        m.append("' (");
        m.append(kind_label(actual.kind));
        m.append(")");
        return Err(fault_of(DECLARATION, m));
    }
    if sorry_dependency(&actual.axioms) {
        return Err(
            fault_of(AXIOM, quoted("'", actual.declaration.as_str(), "' transitively depends on sorryAx")),
        );
    }
    let expected_axioms = sorted_set_of(&classified_of(expected));
    let actual_axioms = sorted_set_of(&crate::text::char_lists(&actual.axioms));
    if !crate::inventory::lists_equal(&expected_axioms, &actual_axioms) {
        let missing = crate::inventory::missing_names(&expected_axioms, &actual_axioms);
        let unknown = crate::inventory::missing_names(&actual_axioms, &expected_axioms);
        let mut m = quoted(
            "exact transitive axiom inventory differs for '",
            actual.declaration.as_str(),
            "'; missing=",
        );
        m.append(debug_list(&crate::text::strings_of(&missing)).as_str());
        m.append(", unknown=");
        m.append(debug_list(&crate::text::strings_of(&unknown)).as_str());
        return Err(
            AdapterError::new(AXIOM, m.as_str()).remediate(
                "classify every compiled axiom explicitly and remove stale classifications",
            ),
        );
    }
    let digest = match statement_digest(&actual.expr_wire) {
        Ok(d) => d,
        Err(w) => {
            let mut m = quoted("invalid ExprWire for '", actual.declaration.as_str(), "': ");
            m.append(w.message().as_str());
            return Err(fault_of(EXPR_WIRE, m));
        },
    };
    let bound = validate_digest_binding_v1(&actual.expr_wire, actual.claim_id.as_str())?;
    let foundational = sorted_set_of(&crate::text::char_lists(&expected.foundational_axioms));
    let assumptions = sorted_set_of(&assumptions_of(&expected.project_axioms));
    Ok(
        ClaimVerdict {
            statement_sha256: digest,
            foundational_axioms: crate::text::strings_of(&foundational),
            project_assumptions: crate::text::strings_of(&assumptions),
            bound_artifacts: bound,
        },
    )
}

/// How a theorem is to be checked.
#[derive(Clone, Copy, Debug, PartialEq, Eq, Structural)]
pub enum EvaluationMode {
    /// Checked by the kernel alone.
    Kernel,
    /// Relies on native evaluation, an explicit premise of the claim.
    Native,
}

/// The resource budget of an evidence unit.
#[derive(Clone, Copy, Debug, PartialEq, Eq, Structural)]
pub struct ResourceBudget {
    pub time_seconds: u64,
    pub disk_bytes: u64,
    pub memory_bytes: u64,
}

/// The evidence unit a Lean audit serves, as the rules read it. The
/// manifest's adapter, evidence and operation kinds keep their manifest
/// spelling; for the qualifiers that belong to other evidence kinds only
/// their presence matters.
#[derive(Clone, Debug)]
pub struct LeanEvidenceUnit {
    pub schema: String,
    pub id: String,
    pub adapter: String,
    pub kind: String,
    pub operation_kind: String,
    pub claims: Vec<String>,
    pub tier: u64,
    pub evaluation_mode: Option<EvaluationMode>,
    pub theorem: Option<String>,
    pub has_binding_mode: bool,
    pub has_refinement_theorem: bool,
    pub has_bounded_domain: bool,
    pub has_package: bool,
    pub has_manifest: bool,
    pub has_inventory: bool,
    pub has_checker: bool,
    pub arguments: Vec<String>,
    pub targets: Vec<String>,
    pub paths: Vec<String>,
    pub resource_budget: ResourceBudget,
    pub expected_inventory: Vec<String>,
    pub inputs: Vec<String>,
    pub outputs: Vec<String>,
    pub assumptions: Vec<String>,
    pub premises: Vec<String>,
    pub environment_allowlist: Vec<String>,
}

/// A Lean adapter unit: its evidence unit and the claim inventory it is
/// audited against.
#[derive(Clone, Debug)]
pub struct LeanAdapterUnit {
    pub schema: String,
    pub evidence_unit: LeanEvidenceUnit,
    pub claim_inventory: Vec<ExpectedClaim>,
}

/// The first fault `check` finds among `values[..n]`.
pub open spec fn first_fault(values: Seq<Seq<char>>, n: nat, check: spec_fn(Seq<char>) -> Option<Fault>) -> Option<
    Fault,
>
    decreases n,
{
    if n == 0 || n > values.len() {
        None
    } else {
        match first_fault(values, (n - 1) as nat, check) {
            Some(f) => Some(f),
            None => check(values[n - 1]),
        }
    }
}

/// The first fault `check` finds anywhere in `values`.
pub open spec fn any_fault(values: Seq<Seq<char>>, check: spec_fn(Seq<char>) -> Option<Fault>) -> Option<Fault> {
    first_fault(values, values.len(), check)
}

proof fn lemma_first_fault_extends(
    values: Seq<Seq<char>>,
    check: spec_fn(Seq<char>) -> Option<Fault>,
    m: nat,
    n: nat,
)
    requires
        m <= n <= values.len(),
    ensures
        first_fault(values, m, check) is Some ==> first_fault(values, n, check) == first_fault(
            values,
            m,
            check,
        ),
    decreases n - m,
{
    if m < n {
        lemma_first_fault_extends(values, check, m, (n - 1) as nat);
    }
}

/// The first fault of `a ++ b` is that of `a`, else that of `b`.
proof fn lemma_first_fault_concat(
    a: Seq<Seq<char>>,
    b: Seq<Seq<char>>,
    check: spec_fn(Seq<char>) -> Option<Fault>,
    n: nat,
)
    requires
        n <= b.len(),
    ensures
        first_fault(a + b, a.len() + n, check) == match any_fault(a, check) {
            Some(f) => Some(f),
            None => first_fault(b, n, check),
        },
    decreases n,
{
    if n == 0 {
        assert((a + b).take(a.len() as int) =~= a);
        assert(a.take(a.len() as int) =~= a);
        lemma_first_fault_prefix(a + b, a, check, a.len());
    } else {
        lemma_first_fault_concat(a, b, check, (n - 1) as nat);
        assert((a + b)[a.len() + n - 1] == b[n - 1]);
    }
}

/// `first_fault` depends only on the prefix it reads.
proof fn lemma_first_fault_prefix(
    s: Seq<Seq<char>>,
    t: Seq<Seq<char>>,
    check: spec_fn(Seq<char>) -> Option<Fault>,
    n: nat,
)
    requires
        n <= s.len(),
        n <= t.len(),
        s.take(n as int) == t.take(n as int),
    ensures
        first_fault(s, n, check) == first_fault(t, n, check),
    decreases n,
{
    if n > 0 {
        assert(s.take(n - 1) =~= s.take(n as int).take(n - 1));
        assert(t.take(n - 1) =~= t.take(n as int).take(n - 1));
        assert(s[n - 1] == s.take(n as int)[n - 1]);
        assert(t[n - 1] == t.take(n as int)[n - 1]);
        lemma_first_fault_prefix(s, t, check, (n - 1) as nat);
    }
}

/// The fault of a path that is not an exact relative file.
pub open spec fn file_fault(v: Seq<char>) -> Option<Fault> {
    if is_relative_file(v) {
        None
    } else {
        Some(
            plain(
                CONFIGURATION,
                "Lean evidence path must be an exact canonical relative file: '"@ + v + "'"@,
            ),
        )
    }
}

/// The fault of a configured target that is not a declaration name.
pub open spec fn target_fault(v: Seq<char>) -> Option<Fault> {
    name_fault(v, "configured Lean target"@)
}

/// The fault of a malformed environment allowlist name.
pub open spec fn allowlist_fault(v: Seq<char>) -> Option<Fault> {
    if is_environment_name(v) {
        None
    } else {
        Some(plain(CONFIGURATION, "invalid environment allowlist name '"@ + v + "'"@))
    }
}

/// The fault of a list that is not strictly sorted.
pub open spec fn sorted_fault(field: Seq<char>, values: Seq<Seq<char>>) -> Option<Fault> {
    if strictly_increasing(values) {
        None
    } else {
        Some(plain(CONFIGURATION, field + " must be strictly sorted and duplicate-free"@))
    }
}

/// Whether `theorem` is a target or lies inside a target's namespace.
pub open spec fn covered_by(theorem: Seq<char>, target: Seq<char>) -> bool {
    theorem == target || starts_with(theorem, target + "."@)
}

/// The first of the unit's sorted-list rules that fails.
pub open spec fn unit_sort_fault(e: LeanEvidenceUnit) -> Option<Fault> {
    if sorted_fault("claims"@, string_views(e.claims@)) is Some {
        sorted_fault("claims"@, string_views(e.claims@))
    } else if sorted_fault("operation.targets"@, string_views(e.targets@)) is Some {
        sorted_fault("operation.targets"@, string_views(e.targets@))
    } else if sorted_fault("operation.paths"@, string_views(e.paths@)) is Some {
        sorted_fault("operation.paths"@, string_views(e.paths@))
    } else if sorted_fault("expected_inventory"@, string_views(e.expected_inventory@)) is Some {
        sorted_fault("expected_inventory"@, string_views(e.expected_inventory@))
    } else if sorted_fault("inputs"@, string_views(e.inputs@)) is Some {
        sorted_fault("inputs"@, string_views(e.inputs@))
    } else if sorted_fault("outputs"@, string_views(e.outputs@)) is Some {
        sorted_fault("outputs"@, string_views(e.outputs@))
    } else if sorted_fault("assumptions"@, string_views(e.assumptions@)) is Some {
        sorted_fault("assumptions"@, string_views(e.assumptions@))
    } else if sorted_fault("premises"@, string_views(e.premises@)) is Some {
        sorted_fault("premises"@, string_views(e.premises@))
    } else {
        sorted_fault("environment_allowlist"@, string_views(e.environment_allowlist@))
    }
}

/// The first fault of the unit's lists of paths, names and identifiers.
pub open spec fn unit_item_fault(e: LeanEvidenceUnit) -> Option<Fault> {
    let files = string_views(e.paths@) + string_views(e.inputs@) + string_views(e.outputs@);
    let names = string_views(e.targets@) + string_views(e.expected_inventory@);
    let ids = string_views(e.assumptions@) + string_views(e.premises@);
    if any_fault(files, |v: Seq<char>| file_fault(v)) is Some {
        any_fault(files, |v: Seq<char>| file_fault(v))
    } else if any_fault(names, |v: Seq<char>| target_fault(v)) is Some {
        any_fault(names, |v: Seq<char>| target_fault(v))
    } else if any_fault(ids, |v: Seq<char>| claim_id_fault(v)) is Some {
        any_fault(ids, |v: Seq<char>| claim_id_fault(v))
    } else if any_fault(string_views(e.environment_allowlist@), |v: Seq<char>| allowlist_fault(v)) is Some {
        any_fault(string_views(e.environment_allowlist@), |v: Seq<char>| allowlist_fault(v))
    } else {
        any_fault(string_views(e.claims@), |v: Seq<char>| claim_id_fault(v))
    }
}

/// What is wrong with the evidence unit itself, before its claim inventory
/// is read.
pub open spec fn evidence_fault(e: LeanEvidenceUnit) -> Option<Fault> {
    if e.schema@ != "proofbound-evidence-unit/1"@ {
        Some(plain(CONFIGURATION, "unsupported evidence unit schema '"@ + e.schema@ + "'"@))
    } else if e.adapter@ != "lean"@ || e.kind@ != "theorem"@ || e.operation_kind@ != "lean-audit"@ {
        Some(
            plain(
                CONFIGURATION,
                "the Lean adapter accepts only adapter=lean, kind=theorem, type=lean-audit units"@,
            ),
        )
    } else if !is_unit_id(e.id@) {
        Some(plain(CONFIGURATION, "invalid canonical evidence unit ID '"@ + e.id@ + "'"@))
    } else if e.claims@.len() != 1 {
        Some(plain(CONFIGURATION, "one Lean theorem evidence unit must cite exactly one claim"@))
    } else if !(2 <= e.tier <= 3) {
        Some(plain(CONFIGURATION, "Lean theorem evidence requires project tier 2 or 3"@))
    } else if e.evaluation_mode is None || !(e.theorem matches Some(t) && t@.len() > 0) {
        Some(
            plain(
                CONFIGURATION,
                "Lean theorem evidence requires evaluation_mode and an exact theorem declaration"@,
            ),
        )
    } else if e.has_binding_mode || e.has_refinement_theorem || e.has_bounded_domain {
        Some(
            plain(
                CONFIGURATION,
                "plain Lean theorem evidence contains qualifiers belonging to another evidence kind"@,
            ),
        )
    } else if e.has_package || e.has_manifest || e.has_inventory || e.has_checker || e.arguments@.len()
        > 0 {
        Some(plain(CONFIGURATION, "Lean audit contains unsupported operation qualifiers"@))
    } else if e.targets@.len() != 1 || e.paths@.len() == 0 {
        Some(
            plain(
                CONFIGURATION,
                "one Lean theorem audit requires exactly one typed target and non-empty source paths"@,
            ),
        )
    } else if !covered_by(e.theorem->0@, e.targets@[0]@) {
        Some(
            plain(
                CONFIGURATION,
                "configured theorem '"@ + e.theorem->0@ + "' is not covered by operation.targets"@,
            ),
        )
    } else if e.resource_budget.time_seconds == 0 || e.resource_budget.disk_bytes == 0
        || e.resource_budget.memory_bytes == 0 {
        Some(plain(CONFIGURATION, "Lean audit resource budgets must all be non-zero"@))
    } else if unit_sort_fault(e) is Some {
        unit_sort_fault(e)
    } else if e.inputs@.len() == 0 {
        Some(plain(CONFIGURATION, "Lean theorem evidence requires at least one semantic input"@))
    } else {
        unit_item_fault(e)
    }
}

/// What is wrong with a Lean adapter unit, if anything.
pub open spec fn unit_fault(unit: LeanAdapterUnit) -> Option<Fault> {
    let e = unit.evidence_unit;
    let inventory = unit.claim_inventory@;
    if unit.schema@ != LEAN_ADAPTER_UNIT_SCHEMA@ {
        Some(plain(CONFIGURATION, "unsupported Lean adapter unit schema '"@ + unit.schema@ + "'"@))
    } else if evidence_fault(e) is Some {
        evidence_fault(e)
    } else if inventory.len() == 0 || inventory.len() > MAX_CLAIMS {
        Some(plain(CONFIGURATION, "claim_inventory must contain 1..=100000 entries"@))
    } else if !strictly_increasing(expected_ids(inventory)) {
        Some(plain(CONFIGURATION, "claim_inventory must be strictly sorted by claim_id"@))
    } else if registered_faults(inventory, inventory.len()) is Some {
        registered_faults(inventory, inventory.len())
    } else if e.expected_inventory@.len() == 0 || sorted_set(string_views(e.expected_inventory@))
        != sorted_set(expected_declarations(inventory)) {
        Some(
            plain(
                INVENTORY,
                "evidence_unit.expected_inventory must be nonempty and exactly equal the registered Lean declarations; configured="@
                    + debug_set_text(sorted_set(string_views(e.expected_inventory@)))
                    + ", registered="@ + debug_set_text(sorted_set(expected_declarations(inventory))),
            ),
        )
    } else {
        None
    }
}

/// The rules a unit applies to each item of a list.
#[derive(Clone, Copy, Debug, PartialEq, Eq, Structural)]
pub enum ItemRule {
    File,
    Target,
    ClaimId,
    Allowlist,
}

/// The check an item rule makes.
pub open spec fn rule_check(rule: ItemRule) -> spec_fn(Seq<char>) -> Option<Fault> {
    match rule {
        ItemRule::File => |v: Seq<char>| file_fault(v),
        ItemRule::Target => |v: Seq<char>| target_fault(v),
        ItemRule::ClaimId => |v: Seq<char>| claim_id_fault(v),
        ItemRule::Allowlist => |v: Seq<char>| allowlist_fault(v),
    }
}

fn check_item(value: &str, rule: ItemRule) -> (r: Result<(), AdapterError>)
    ensures
        match (rule_check(rule))(value@) {
            None => r is Ok,
            Some(f) => (r matches Err(e) && is_fault(e, f)),
        },
{
    match rule {
        ItemRule::File => crate::lean::validate_relative_file(value),
        ItemRule::Target => validate_name(value, "configured Lean target"),
        ItemRule::ClaimId => validate_claim_id(value),
        ItemRule::Allowlist => {
            if valid_environment_name(value) {
                Ok(())
            } else {
                Err(fault_of(CONFIGURATION, quoted("invalid environment allowlist name '", value, "'")))
            }
        },
    }
}

/// Applies `rule` to each of `values` in order.
fn check_all(values: &Vec<String>, rule: ItemRule) -> (r: Result<(), AdapterError>)
    ensures
        match any_fault(string_views(values@), rule_check(rule)) {
            None => r is Ok,
            Some(f) => (r matches Err(e) && is_fault(e, f)),
        },
{
    let ghost vs = string_views(values@);
    let mut i: usize = 0;
    while i < values.len()
        invariant
            i <= values@.len(),
            vs == string_views(values@),
            first_fault(vs, i as nat, rule_check(rule)) is None,
        decreases values@.len() - i,
    {
        proof {
            assert(vs[i as int] == values@[i as int]@);
            lemma_first_fault_extends(vs, rule_check(rule), (i + 1) as nat, vs.len());
        }
        check_item(values[i].as_str(), rule)?;
        i = i + 1;
    }
    Ok(())
}

/// Applies `rule` to each of `a` and then each of `b`.
fn check_both(a: &Vec<String>, b: &Vec<String>, rule: ItemRule) -> (r: Result<(), AdapterError>)
    ensures
        match any_fault(string_views(a@) + string_views(b@), rule_check(rule)) {
            None => r is Ok,
            Some(f) => (r matches Err(e) && is_fault(e, f)),
        },
{
    proof {
        lemma_first_fault_concat(string_views(a@), string_views(b@), rule_check(rule), b@.len());
    }
    check_all(a, rule)?;
    check_all(b, rule)
}

fn covers(theorem: &str, target: &str) -> (b: bool)
    ensures
        b == covered_by(theorem@, target@),
{
    if str_equal(theorem, target) {
        return true;
    }
    let mut prefix = target.to_owned();
    prefix.append(".");
    let t = chars_of(theorem);
    let p = chars_of(prefix.as_str());
    crate::text::matches_at(t.as_slice(), p.as_slice(), 0)
}

fn sorted_rules(e: &LeanEvidenceUnit) -> (r: Result<(), AdapterError>)
    ensures
        match unit_sort_fault(*e) {
            None => r is Ok,
            Some(f) => (r matches Err(x) && is_fault(x, f)),
        },
{
    require_sorted_unique("claims", &e.claims)?;
    require_sorted_unique("operation.targets", &e.targets)?;
    require_sorted_unique("operation.paths", &e.paths)?;
    require_sorted_unique("expected_inventory", &e.expected_inventory)?;
    require_sorted_unique("inputs", &e.inputs)?;
    require_sorted_unique("outputs", &e.outputs)?;
    require_sorted_unique("assumptions", &e.assumptions)?;
    require_sorted_unique("premises", &e.premises)?;
    require_sorted_unique("environment_allowlist", &e.environment_allowlist)
}

fn item_rules(e: &LeanEvidenceUnit) -> (r: Result<(), AdapterError>)
    ensures
        match unit_item_fault(*e) {
            None => r is Ok,
            Some(f) => (r matches Err(x) && is_fault(x, f)),
        },
{
    let ghost p = string_views(e.paths@);
    let ghost i = string_views(e.inputs@);
    let ghost o = string_views(e.outputs@);
    proof {
        lemma_first_fault_concat(p + i, o, rule_check(ItemRule::File), o.len());
        lemma_first_fault_concat(p, i, rule_check(ItemRule::File), i.len());
    }
    check_both(&e.paths, &e.inputs, ItemRule::File)?;
    check_all(&e.outputs, ItemRule::File)?;
    check_both(&e.targets, &e.expected_inventory, ItemRule::Target)?;
    check_both(&e.assumptions, &e.premises, ItemRule::ClaimId)?;
    check_all(&e.environment_allowlist, ItemRule::Allowlist)?;
    check_all(&e.claims, ItemRule::ClaimId)
}

fn evidence_rules(e: &LeanEvidenceUnit) -> (r: Result<(), AdapterError>)
    ensures
        match evidence_fault(*e) {
            None => r is Ok,
            Some(f) => (r matches Err(x) && is_fault(x, f)),
        },
{
    if !str_equal(e.schema.as_str(), "proofbound-evidence-unit/1") {
        return Err(fault_of(CONFIGURATION, quoted("unsupported evidence unit schema '", e.schema.as_str(), "'")));
    }
    if !str_equal(e.adapter.as_str(), "lean") || !str_equal(e.kind.as_str(), "theorem") || !str_equal(
        e.operation_kind.as_str(),
        "lean-audit",
    ) {
        return Err(
            fault_of(
                CONFIGURATION,
                "the Lean adapter accepts only adapter=lean, kind=theorem, type=lean-audit units".to_owned(),
            ),
        );
    }
    validate_local_id(e.id.as_str())?;
    if e.claims.len() != 1 {
        return Err(fault_of(CONFIGURATION, "one Lean theorem evidence unit must cite exactly one claim".to_owned()));
    }
    if !(2 <= e.tier && e.tier <= 3) {
        return Err(fault_of(CONFIGURATION, "Lean theorem evidence requires project tier 2 or 3".to_owned()));
    }
    let missing = "Lean theorem evidence requires evaluation_mode and an exact theorem declaration";
    let theorem: &str = match &e.theorem {
        Some(t) => t.as_str(),
        None => {
            return Err(fault_of(CONFIGURATION, missing.to_owned()));
        },
    };
    if e.evaluation_mode.is_none() || chars_of(theorem).len() == 0 {
        return Err(
            fault_of(
                CONFIGURATION,
                "Lean theorem evidence requires evaluation_mode and an exact theorem declaration".to_owned(),
            ),
        );
    }
    if e.has_binding_mode || e.has_refinement_theorem || e.has_bounded_domain {
        return Err(
            fault_of(
                CONFIGURATION,
                "plain Lean theorem evidence contains qualifiers belonging to another evidence kind".to_owned(),
            ),
        );
    }
    if e.has_package || e.has_manifest || e.has_inventory || e.has_checker || e.arguments.len() > 0 {
        return Err(fault_of(CONFIGURATION, "Lean audit contains unsupported operation qualifiers".to_owned()));
    }
    if e.targets.len() != 1 || e.paths.len() == 0 {
        return Err(
            fault_of(
                CONFIGURATION,
                "one Lean theorem audit requires exactly one typed target and non-empty source paths".to_owned(),
            ),
        );
    }
    if !covers(theorem, e.targets[0].as_str()) {
        return Err(
            fault_of(
                CONFIGURATION,
                quoted("configured theorem '", theorem, "' is not covered by operation.targets"),
            ),
        );
    }
    if e.resource_budget.time_seconds == 0 || e.resource_budget.disk_bytes == 0
        || e.resource_budget.memory_bytes == 0 {
        return Err(fault_of(CONFIGURATION, "Lean audit resource budgets must all be non-zero".to_owned()));
    }
    sorted_rules(e)?;
    if e.inputs.len() == 0 {
        return Err(
            fault_of(CONFIGURATION, "Lean theorem evidence requires at least one semantic input".to_owned()),
        );
    }
    item_rules(e)
}

fn registered_ids(claims: &Vec<ExpectedClaim>) -> (out: Vec<String>)
    ensures
        string_views(out@) == expected_ids(claims@),
{
    let mut out: Vec<String> = Vec::new();
    let mut i: usize = 0;
    while i < claims.len()
        invariant
            i <= claims@.len(),
            string_views(out@) == expected_ids(claims@.take(i as int)),
        decreases claims@.len() - i,
    {
        let ghost before = string_views(out@);
        out.push(claims[i].claim_id.as_str().to_owned());
        proof {
            assert(expected_ids(claims@.take(i + 1)) =~= expected_ids(claims@.take(i as int)).push(
                claims@[i as int].claim_id@,
            ));
            assert(string_views(out@) =~= before.push(claims@[i as int].claim_id@));
        }
        i = i + 1;
    }
    proof {
        assert(claims@.take(claims@.len() as int) =~= claims@);
    }
    out
}

fn registered_declarations(claims: &Vec<ExpectedClaim>) -> (out: Vec<Vec<char>>)
    ensures
        views(out@) == expected_declarations(claims@),
{
    let mut out: Vec<Vec<char>> = Vec::new();
    let mut i: usize = 0;
    while i < claims.len()
        invariant
            i <= claims@.len(),
            views(out@) == expected_declarations(claims@.take(i as int)),
        decreases claims@.len() - i,
    {
        let ghost before = views(out@);
        out.push(chars_of(claims[i].declaration.as_str()));
        proof {
            assert(expected_declarations(claims@.take(i + 1)) =~= expected_declarations(
                claims@.take(i as int),
            ).push(claims@[i as int].declaration@));
            assert(views(out@) =~= before.push(claims@[i as int].declaration@));
        }
        i = i + 1;
    }
    proof {
        assert(claims@.take(claims@.len() as int) =~= claims@);
    }
    out
}

/// Checks a Lean adapter unit: its schemas and kinds, the one theorem it
/// audits, its sorted and well-formed lists, and a claim inventory whose
/// declarations are exactly the unit's expected inventory.
pub fn validate_unit(unit: &LeanAdapterUnit) -> (r: Result<(), AdapterError>)
    ensures
        match unit_fault(*unit) {
            None => r is Ok,
            Some(f) => (r matches Err(e) && is_fault(e, f)),
        },
{
    if !str_equal(unit.schema.as_str(), LEAN_ADAPTER_UNIT_SCHEMA) {
        return Err(
            fault_of(CONFIGURATION, quoted("unsupported Lean adapter unit schema '", unit.schema.as_str(), "'")),
        );
    }
    evidence_rules(&unit.evidence_unit)?;
    let inventory = &unit.claim_inventory;
    if inventory.len() == 0 || inventory.len() > MAX_CLAIMS {
        return Err(fault_of(CONFIGURATION, "claim_inventory must contain 1..=100000 entries".to_owned()));
    }
    if !crate::lean::increasing(&registered_ids(inventory)) {
        return Err(fault_of(CONFIGURATION, "claim_inventory must be strictly sorted by claim_id".to_owned()));
    }
    let _ids = expected_inventory(inventory)?;
    let configured = sorted_set_of(&crate::text::char_lists(&unit.evidence_unit.expected_inventory));
    let registered = sorted_set_of(&registered_declarations(inventory));
    if unit.evidence_unit.expected_inventory.len() == 0 || !crate::inventory::lists_equal(
        &configured,
        &registered,
    ) {
        let mut m = "evidence_unit.expected_inventory must be nonempty and exactly equal the registered Lean declarations; configured=".to_owned();
        m.append(debug_set(&crate::text::strings_of(&configured)).as_str());
        m.append(", registered=");
        m.append(debug_set(&crate::text::strings_of(&registered)).as_str());
        return Err(fault_of(INVENTORY, m));
    }
    Ok(())
}

/// The index of the first of `ids` at or after `from` equal to `id`, or the
/// length of `ids` when there is none.
pub open spec fn position(ids: Seq<Seq<char>>, id: Seq<char>, from: int) -> int
    decreases ids.len() - from,
{
    if from < 0 || from >= ids.len() {
        ids.len() as int
    } else if ids[from] == id {
        from
    } else {
        position(ids, id, from + 1)
    }
}

/// The registered claim with identifier `id`.
pub open spec fn registered_claim(inventory: Seq<ExpectedClaim>, id: Seq<char>) -> ExpectedClaim {
    inventory[position(expected_ids(inventory), id, 0)]
}

/// The attributed claim with identifier `id`.
pub open spec fn attributed_claim(claims: Seq<AuditClaim>, id: Seq<char>) -> AuditClaim {
    claims[position(claim_ids(claims), id, 0)]
}

/// What checking the claim `id` adds: its comparison, then its pinned
/// statement digest when digests are compared.
#[verifier::opaque]
pub open spec fn id_failure(
    inventory: Seq<ExpectedClaim>,
    claims: Seq<AuditClaim>,
    id: Seq<char>,
    target: Seq<char>,
    require_target_digest: bool,
    compare_pinned_digests: bool,
) -> Option<Failure> {
    let expected = registered_claim(inventory, id);
    match claim_outcome(expected, attributed_claim(claims, id)) {
        Err(f) => Some(f),
        Ok(v) => if compare_pinned_digests && expected.statement_sha256 is Some {
            let pinned = expected.statement_sha256->0@.skip(7);
            if pinned != v.0 {
                Some(
                    remedied(
                        STATEMENT_DRIFT,
                        "statement digest drift for '"@ + id + "': expected sha256:"@ + pinned
                            + ", computed sha256:"@ + v.0,
                        "review the elaborated theorem change and update the claim digest explicitly"@,
                    ),
                )
            } else {
                None
            }
        } else if compare_pinned_digests && require_target_digest && id == target {
            Some(
                remedied(
                    STATEMENT_DRIFT,
                    "registered target claim '"@ + id + "' has no statement_sha256"@,
                    "pin the domain-separated lean-expr-cbor/1 digest before checking the claim"@,
                ),
            )
        } else {
            None
        },
    }
}

/// The first failure among the claims `ids[..n]`.
pub open spec fn id_failures(
    inventory: Seq<ExpectedClaim>,
    claims: Seq<AuditClaim>,
    ids: Seq<Seq<char>>,
    n: nat,
    target: Seq<char>,
    require_target_digest: bool,
    compare_pinned_digests: bool,
) -> Option<Failure>
    decreases n,
{
    if n == 0 || n > ids.len() {
        None
    } else {
        match id_failures(
            inventory,
            claims,
            ids,
            (n - 1) as nat,
            target,
            require_target_digest,
            compare_pinned_digests,
        ) {
            Some(f) => Some(f),
            None => id_failure(
                inventory,
                claims,
                ids[n - 1],
                target,
                require_target_digest,
                compare_pinned_digests,
            ),
        }
    }
}

/// How `{:?}` renders an optional evaluation mode.
pub open spec fn mode_debug(mode: Option<EvaluationMode>) -> Seq<char> {
    match mode {
        None => "None"@,
        Some(EvaluationMode::Kernel) => "Some(Kernel)"@,
        Some(EvaluationMode::Native) => "Some(Native)"@,
    }
}

/// Whether the configured assumptions classify the audited project
/// assumptions exactly: each project assumption is configured, a kernel
/// unit configures nothing else, and a native unit configures at least one
/// premise beyond them.
pub open spec fn assumptions_classify(
    configured: Seq<Seq<char>>,
    project: Seq<Seq<char>>,
    mode: Option<EvaluationMode>,
) -> bool {
    let native = mode == Some(EvaluationMode::Native);
    let others = missing_from(configured, project);
    &&& forall|i: int| 0 <= i < project.len() ==> configured.contains(#[trigger] project[i])
    &&& (!native ==> others.len() == 0)
    &&& (native ==> others.len() > 0)
}

/// The message when the assumptions do not classify the project axioms.
pub open spec fn assumption_message(
    configured: Seq<Seq<char>>,
    project: Seq<Seq<char>>,
    mode: Option<EvaluationMode>,
) -> Seq<char> {
    "unit assumptions do not classify the audited project axioms and native-evaluation boundary exactly; configured="@
        + debug_set_text(configured) + ", audited_project_axioms="@ + debug_set_text(project)
        + ", evaluation_mode="@ + mode_debug(mode)
}

/// The remediation when the assumptions do not classify the project axioms.
pub open spec fn assumption_remediation() -> Seq<char> {
    "map every project axiom to a registered assumption; kernel units permit no extras, while native units require at least one explicit non-project native-evaluation premise"@
}

/// The first failure of the unit, the audit or their inventories, if any.
#[verifier::opaque]
pub open spec fn inventory_failure(unit: LeanAdapterUnit, output: AuditOutput) -> Option<Failure> {
    let inventory = unit.claim_inventory@;
    let claims = output.claims@;
    let ev = unit.evidence_unit;
    let e = sorted_set(expected_ids(inventory));
    let a = sorted_set(claim_ids(claims));
    if unit_fault(unit) is Some {
        Some(bare(unit_fault(unit)->0))
    } else if output_fault(output) is Some {
        Some(bare(output_fault(output)->0))
    } else if attributed_faults(claims, claims.len()) is Some {
        Some(bare(attributed_faults(claims, claims.len())->0))
    } else if e != a {
        Some(
            remedied(
                INVENTORY,
                "compiled attributed claim inventory differs from registration; missing="@
                    + debug_strings(missing_from(e, a)) + ", unknown="@ + debug_strings(
                    missing_from(a, e),
                ),
                "register every compiled proofbound_claim and ensure every registered claim is imported"@,
            ),
        )
    } else if sorted_set(string_views(ev.expected_inventory@)) != sorted_set(claim_declarations(claims)) {
        Some(
            bare(
                plain(
                    INVENTORY,
                    "evidence_unit.expected_inventory differs from compiled declarations; configured="@
                        + debug_set_text(sorted_set(string_views(ev.expected_inventory@)))
                        + ", compiled="@ + debug_set_text(sorted_set(claim_declarations(claims))),
                ),
            ),
        )
    } else {
        None
    }
}

/// The first failure of the unit's target claim, once every claim checked.
pub open spec fn target_failure(unit: LeanAdapterUnit, output: AuditOutput) -> Option<Failure> {
    let inventory = unit.claim_inventory@;
    let claims = output.claims@;
    let ev = unit.evidence_unit;
    let e = sorted_set(expected_ids(inventory));
    let target = ev.claims@[0]@;
    let project = claim_outcome(registered_claim(inventory, target), attributed_claim(claims, target))->Ok_0.2;
    let configured = sorted_set(string_views(ev.assumptions@));
    if !e.contains(target) {
        Some(
            bare(
                plain(
                    INVENTORY,
                    "unit target claim '"@ + target + "' is absent from the compiled inventory"@,
                ),
            ),
        )
    } else if attributed_claim(claims, target).declaration@ != ev.theorem->0@ {
        Some(
            bare(
                plain(
                    DECLARATION,
                    "unit theorem mismatch for '"@ + target + "': configured '"@ + ev.theorem->0@
                        + "', attributed '"@ + attributed_claim(claims, target).declaration@ + "'"@,
                ),
            ),
        )
    } else if !assumptions_classify(configured, project, ev.evaluation_mode) {
        Some(
            remedied(
                AXIOM,
                assumption_message(configured, project, ev.evaluation_mode),
                assumption_remediation(),
            ),
        )
    } else {
        None
    }
}

/// The first failure of an audit against its unit, if any.
pub open spec fn audit_failure(
    unit: LeanAdapterUnit,
    output: AuditOutput,
    require_target_digest: bool,
    compare_pinned_digests: bool,
) -> Option<Failure> {
    let inventory = unit.claim_inventory@;
    let claims = output.claims@;
    let e = sorted_set(expected_ids(inventory));
    let target = unit.evidence_unit.claims@[0]@;
    if inventory_failure(unit, output) is Some {
        inventory_failure(unit, output)
    } else if id_failures(
        inventory,
        claims,
        e,
        e.len(),
        target,
        require_target_digest,
        compare_pinned_digests,
    ) is Some {
        id_failures(inventory, claims, e, e.len(), target, require_target_digest, compare_pinned_digests)
    } else {
        target_failure(unit, output)
    }
}

/// What an accepted audit establishes of its unit's target claim.
#[derive(Debug)]
pub struct VerifiedAudit {
    /// The index of the target claim among the audit's claims.
    pub target: usize,
    pub statement_sha256: Sha256Digest,
    pub foundational_axioms: Vec<String>,
    pub project_assumptions: Vec<String>,
    pub bound_artifacts: Vec<String>,
    /// Every compiled attributed declaration, sorted.
    pub inventory: Vec<String>,
}

/// What an accepted audit returns of its unit's target claim: its index
/// among the compiled claims, the verdict that comparing it with its
/// registration yields, and every compiled declaration, sorted.
pub open spec fn audit_accepted(unit: LeanAdapterUnit, output: AuditOutput, v: VerifiedAudit) -> bool {
    let target = unit.evidence_unit.claims@[0]@;
    let inventory = unit.claim_inventory@;
    let claims = output.claims@;
    &&& v.target as int == position(claim_ids(claims), target, 0)
    &&& Ok::<VerdictView, Failure>(
        (
            v.statement_sha256@,
            string_views(v.foundational_axioms@),
            string_views(v.project_assumptions@),
            string_views(v.bound_artifacts@),
        ),
    ) == claim_outcome(registered_claim(inventory, target), attributed_claim(claims, target))
    &&& string_views(v.inventory@) == sorted_set(claim_declarations(claims))
}

fn position_of(ids: &Vec<Vec<char>>, id: &[char]) -> (i: usize)
    ensures
        i as int == position(views(ids@), id@, 0),
{
    let ghost vs = views(ids@);
    let mut i: usize = 0;
    while i < ids.len()
        invariant
            i <= vs.len(),
            vs == views(ids@),
            position(vs, id@, 0) == position(vs, id@, i as int),
        decreases vs.len() - i,
    {
        proof {
            assert(vs[i as int] == ids@[i as int]@);
        }
        if crate::inventory::compare_chars(ids[i].as_slice(), id) == 0 {
            return i;
        }
        i = i + 1;
    }
    i
}

proof fn lemma_position_found(ids: Seq<Seq<char>>, id: Seq<char>, from: int)
    requires
        0 <= from,
        exists|k: int| from <= k < ids.len() && ids[k] == id,
    ensures
        from <= position(ids, id, from) < ids.len(),
        ids[position(ids, id, from)] == id,
    decreases ids.len() - from,
{
    if ids[from] != id {
        let k = choose|k: int| from <= k < ids.len() && ids[k] == id;
        assert(k != from);
        lemma_position_found(ids, id, from + 1);
    }
}

proof fn lemma_id_failures_extends(
    inventory: Seq<ExpectedClaim>,
    claims: Seq<AuditClaim>,
    ids: Seq<Seq<char>>,
    m: nat,
    n: nat,
    target: Seq<char>,
    require_target_digest: bool,
    compare_pinned_digests: bool,
)
    requires
        m <= n <= ids.len(),
    ensures
        id_failures(inventory, claims, ids, m, target, require_target_digest, compare_pinned_digests) is Some
            ==> id_failures(inventory, claims, ids, n, target, require_target_digest, compare_pinned_digests)
            == id_failures(inventory, claims, ids, m, target, require_target_digest, compare_pinned_digests),
    decreases n - m,
{
    if m < n {
        lemma_id_failures_extends(
            inventory,
            claims,
            ids,
            m,
            (n - 1) as nat,
            target,
            require_target_digest,
            compare_pinned_digests,
        );
    }
}

proof fn lemma_registered_each(claims: Seq<ExpectedClaim>, n: nat, i: int)
    requires
        n <= claims.len(),
        0 <= i < n,
        registered_faults(claims, n) is None,
    ensures
        registered_fault(
            claims[i],
            expected_ids(claims.take(i)),
            expected_declarations(claims.take(i)),
        ) is None,
    decreases n,
{
    if i < n - 1 {
        lemma_registered_each(claims, (n - 1) as nat, i);
    }
}

fn attributed_ids(claims: &Vec<AuditClaim>) -> (out: Vec<Vec<char>>)
    ensures
        views(out@) == claim_ids(claims@),
{
    let mut out: Vec<Vec<char>> = Vec::new();
    let mut i: usize = 0;
    while i < claims.len()
        invariant
            i <= claims@.len(),
            views(out@) == claim_ids(claims@.take(i as int)),
        decreases claims@.len() - i,
    {
        let ghost before = views(out@);
        out.push(chars_of(claims[i].claim_id.as_str()));
        proof {
            assert(claim_ids(claims@.take(i + 1)) =~= claim_ids(claims@.take(i as int)).push(
                claims@[i as int].claim_id@,
            ));
            assert(views(out@) =~= before.push(claims@[i as int].claim_id@));
        }
        i = i + 1;
    }
    proof {
        assert(claims@.take(claims@.len() as int) =~= claims@);
    }
    out
}

fn mode_text(mode: Option<EvaluationMode>) -> (s: &'static str)
    ensures
        s@ == mode_debug(mode),
{
    match mode {
        None => "None",
        Some(EvaluationMode::Kernel) => "Some(Kernel)",
        Some(EvaluationMode::Native) => "Some(Native)",
    }
}

fn all_contained(configured: &Vec<Vec<char>>, project: &Vec<String>) -> (b: bool)
    ensures
        b == (forall|i: int|
            0 <= i < project@.len() ==> views(configured@).contains(#[trigger] string_views(project@)[i])),
{
    let mut i: usize = 0;
    while i < project.len()
        invariant
            i <= project@.len(),
            forall|k: int|
                0 <= k < i ==> views(configured@).contains(#[trigger] string_views(project@)[k]),
        decreases project@.len() - i,
    {
        let p = chars_of(project[i].as_str());
        proof {
            assert(string_views(project@)[i as int] == p@);
        }
        if !contains_chars(configured, p.as_slice()) {
            return false;
        }
        i = i + 1;
    }
    true
}

/// The unit, the audit and their inventories, checked in that order; on
/// success the registered claim identifiers, sorted.
fn reconcile_inventories(unit: &LeanAdapterUnit, output: &AuditOutput) -> (r: Result<
    Vec<String>,
    AdapterError,
>)
    ensures
        match inventory_failure(*unit, *output) {
            Some(f) => (r matches Err(e) && is_failure(e, f)),
            None => (r matches Ok(ids) && string_views(ids@) == sorted_set(
                expected_ids(unit.claim_inventory@),
            ) && crate::inventory::same_values(string_views(ids@), expected_ids(unit.claim_inventory@))
                && crate::inventory::same_values(string_views(ids@), claim_ids(output.claims@))
                && unit.evidence_unit.claims@.len() == 1 && unit.evidence_unit.theorem is Some
                && registered_faults(unit.claim_inventory@, unit.claim_inventory@.len()) is None),
        },
{
    proof {
        reveal(inventory_failure);
    }
    validate_unit(unit)?;
    validate_output(output)?;
    let expected = match expected_inventory(&unit.claim_inventory) {
        Ok(ids) => ids,
        Err(e) => {
            return Err(e);
        },
    };
    let actual = actual_inventory(output)?;
    let e_lists = crate::text::char_lists(&expected);
    let a_lists = crate::text::char_lists(&actual);
    if !crate::inventory::lists_equal(&e_lists, &a_lists) {
        let missing = crate::inventory::missing_names(&e_lists, &a_lists);
        let unknown = crate::inventory::missing_names(&a_lists, &e_lists);
        let mut m = "compiled attributed claim inventory differs from registration; missing=".to_owned();
        m.append(debug_list(&crate::text::strings_of(&missing)).as_str());
        m.append(", unknown=");
        m.append(debug_list(&crate::text::strings_of(&unknown)).as_str());
        return Err(
            AdapterError::new(INVENTORY, m.as_str()).remediate(
                "register every compiled proofbound_claim and ensure every registered claim is imported",
            ),
        );
    }
    let configured = sorted_set_of(&crate::text::char_lists(&unit.evidence_unit.expected_inventory));
    let compiled = sorted_set_of(&declarations_of(&output.claims));
    if !crate::inventory::lists_equal(&configured, &compiled) {
        let mut m = "evidence_unit.expected_inventory differs from compiled declarations; configured=".to_owned();
        m.append(debug_set(&crate::text::strings_of(&configured)).as_str());
        m.append(", compiled=");
        m.append(debug_set(&crate::text::strings_of(&compiled)).as_str());
        return Err(fault_of(INVENTORY, m));
    }
    Ok(expected)
}

/// Checks one claim by identifier and returns where its compiled
/// counterpart sits and what it yields.
fn check_one_claim(
    unit: &LeanAdapterUnit,
    output: &AuditOutput,
    expected_id_lists: &Vec<Vec<char>>,
    actual_id_lists: &Vec<Vec<char>>,
    id: &str,
    target_id: &str,
    require_target_digest: bool,
    compare_pinned_digests: bool,
) -> (r: Result<(usize, ClaimVerdict), AdapterError>)
    requires
        views(expected_id_lists@) == expected_ids(unit.claim_inventory@),
        views(actual_id_lists@) == claim_ids(output.claims@),
        expected_ids(unit.claim_inventory@).contains(id@),
        claim_ids(output.claims@).contains(id@),
        registered_faults(unit.claim_inventory@, unit.claim_inventory@.len()) is None,
    ensures
        match id_failure(
            unit.claim_inventory@,
            output.claims@,
            id@,
            target_id@,
            require_target_digest,
            compare_pinned_digests,
        ) {
            Some(f) => (r matches Err(e) && is_failure(e, f)),
            None => (r matches Ok((i, v)) && i as int == position(claim_ids(output.claims@), id@, 0)
                && Ok::<VerdictView, Failure>(verdict_view(v)) == claim_outcome(
                registered_claim(unit.claim_inventory@, id@),
                attributed_claim(output.claims@, id@),
            )),
        },
{
    let ghost inventory = unit.claim_inventory@;
    proof {
        reveal(id_failure);
        lemma_position_found(expected_ids(inventory), id@, 0);
        lemma_position_found(claim_ids(output.claims@), id@, 0);
    }
    let id_chars = chars_of(id);
    let ie = position_of(expected_id_lists, id_chars.as_slice());
    let ia = position_of(actual_id_lists, id_chars.as_slice());
    let registered = &unit.claim_inventory[ie];
    let verdict = verify_claim(registered, &output.claims[ia])?;
    match &registered.statement_sha256 {
        Some(pin) => {
            if compare_pinned_digests {
                let pin_chars = chars_of(pin.as_str());
                proof {
                    lemma_registered_each(inventory, inventory.len(), ie as int);
                    assert(is_sha256_text(pin@));
                }
                let mut pinned: Vec<char> = Vec::new();
                crate::text::extend_range(&mut pinned, pin_chars.as_slice(), 7, pin_chars.len());
                let computed = chars_of(verdict.statement_sha256.as_str());
                proof {
                    assert(pinned@ =~= pin@.skip(7));
                }
                if crate::inventory::compare_chars(pinned.as_slice(), computed.as_slice()) != 0 {
                    let mut m = quoted("statement digest drift for '", id, "': expected sha256:");
                    m.append(crate::text::string_of(pinned.as_slice()).as_str());
                    m.append(", computed sha256:");
                    m.append(verdict.statement_sha256.as_str());
                    return Err(
                        AdapterError::new(STATEMENT_DRIFT, m.as_str()).remediate(
                            "review the elaborated theorem change and update the claim digest explicitly",
                        ),
                    );
                }
            }
        },
        None => {
            if compare_pinned_digests && require_target_digest && str_equal(id, target_id) {
                return Err(
                    AdapterError::new(
                        STATEMENT_DRIFT,
                        quoted("registered target claim '", id, "' has no statement_sha256").as_str(),
                    ).remediate("pin the domain-separated lean-expr-cbor/1 digest before checking the claim"),
                );
            }
        },
    }
    Ok((ia, verdict))
}

/// Checks every registered claim in identifier order and returns the
/// target's position and verdict, if the target is among them.
fn check_claims(
    unit: &LeanAdapterUnit,
    output: &AuditOutput,
    expected: &Vec<String>,
    target_id: &str,
    require_target_digest: bool,
    compare_pinned_digests: bool,
) -> (r: Result<Option<(usize, ClaimVerdict)>, AdapterError>)
    requires
        crate::inventory::same_values(string_views(expected@), expected_ids(unit.claim_inventory@)),
        crate::inventory::same_values(string_views(expected@), claim_ids(output.claims@)),
        registered_faults(unit.claim_inventory@, unit.claim_inventory@.len()) is None,
    ensures
        match id_failures(
            unit.claim_inventory@,
            output.claims@,
            string_views(expected@),
            expected@.len(),
            target_id@,
            require_target_digest,
            compare_pinned_digests,
        ) {
            Some(f) => (r matches Err(e) && is_failure(e, f)),
            None => (r matches Ok(found) && match found {
                None => !string_views(expected@).contains(target_id@),
                Some((i, v)) => string_views(expected@).contains(target_id@) && i as int == position(
                    claim_ids(output.claims@),
                    target_id@,
                    0,
                ) && Ok::<VerdictView, Failure>(verdict_view(v)) == claim_outcome(
                    registered_claim(unit.claim_inventory@, target_id@),
                    attributed_claim(output.claims@, target_id@),
                ),
            }),
        },
{
    let ghost inventory = unit.claim_inventory@;
    let ghost claims = output.claims@;
    let ghost e = string_views(expected@);
    let ghost target = target_id@;
    let expected_id_lists = crate::text::char_lists(&registered_ids(&unit.claim_inventory));
    let actual_id_lists = attributed_ids(&output.claims);
    let mut found: Option<(usize, ClaimVerdict)> = None;
    let mut k: usize = 0;
    while k < expected.len()
        invariant
            k <= e.len(),
            e == string_views(expected@),
            inventory == unit.claim_inventory@,
            claims == output.claims@,
            target == target_id@,
            views(expected_id_lists@) == expected_ids(inventory),
            views(actual_id_lists@) == claim_ids(claims),
            crate::inventory::same_values(e, expected_ids(inventory)),
            crate::inventory::same_values(e, claim_ids(claims)),
            registered_faults(inventory, inventory.len()) is None,
            id_failures(
                inventory,
                claims,
                e,
                k as nat,
                target,
                require_target_digest,
                compare_pinned_digests,
            ) is None,
            match found {
                None => !e.take(k as int).contains(target),
                Some((i, v)) => e.take(k as int).contains(target) && i as int == position(
                    claim_ids(claims),
                    target,
                    0,
                ) && Ok::<VerdictView, Failure>(verdict_view(v)) == claim_outcome(
                    registered_claim(inventory, target),
                    attributed_claim(claims, target),
                ),
            },
        decreases e.len() - k,
    {
        let id = expected[k].as_str();
        proof {
            assert(e[k as int] == id@);
            assert(e.contains(id@));
            assert(e.take(k + 1).drop_last() =~= e.take(k as int));
            lemma_id_failures_extends(
                inventory,
                claims,
                e,
                (k + 1) as nat,
                e.len(),
                target,
                require_target_digest,
                compare_pinned_digests,
            );
        }
        let (ia, verdict) = check_one_claim(
            unit,
            output,
            &expected_id_lists,
            &actual_id_lists,
            id,
            target_id,
            require_target_digest,
            compare_pinned_digests,
        )?;
        proof {
            assert(e.take(k + 1) =~= e.take(k as int).push(id@));
        }
        let is_target = str_equal(id, target_id);
        proof {
            if !is_target && found is None {
                assert(id@ != target);
                assert forall|j: int| 0 <= j < k + 1 implies #[trigger] e.take(k + 1)[j] != target by {
                    assert(e.take(k + 1)[j] == e[j]);
                    if j < k {
                        if e.take(k + 1)[j] == target {
                            assert(e.take(k as int)[j] == target);
                            assert(e.take(k as int).contains(target));
                        }
                    }
                }
                assert(!e.take(k + 1).contains(target));
            }
            if is_target {
                assert(e.take(k + 1)[k as int] == target);
                assert(e.take(k + 1).contains(target));
            }
            if found is Some {
                let j = choose|j: int| 0 <= j < k && e.take(k as int)[j] == target;
                assert(e.take(k + 1)[j] == target);
                assert(e.take(k + 1).contains(target));
            }
        }
        if is_target {
            found = Some((ia, verdict));
        }
        k = k + 1;
    }
    proof {
        assert(e.take(e.len() as int) =~= e);
    }
    Ok(found)
}

/// Reconciles a compiled audit with its unit: the unit and the audit are
/// well formed, the compiled and registered claim inventories agree, every
/// claim verifies (and, when digests are compared, matches its pinned
/// statement digest), and the unit's target theorem and assumptions are
/// exactly what the audit shows. Returns what the audit establishes of the
/// target claim.
pub fn verify_audit_with_policy(
    unit: &LeanAdapterUnit,
    output: &AuditOutput,
    require_target_digest: bool,
    compare_pinned_digests: bool,
) -> (r: Result<VerifiedAudit, AdapterError>)
    ensures
        match audit_failure(*unit, *output, require_target_digest, compare_pinned_digests) {
            Some(f) => (r matches Err(e) && is_failure(e, f)),
            None => (r matches Ok(v) && audit_accepted(*unit, *output, v)),
        },
{
    let expected = reconcile_inventories(unit, output)?;
    let target_id = unit.evidence_unit.claims[0].as_str();
    let found = check_claims(
        unit,
        output,
        &expected,
        target_id,
        require_target_digest,
        compare_pinned_digests,
    )?;
    let (target_index, target_verdict) = match found {
        Some(t) => t,
        None => {
            return Err(
                fault_of(
                    INVENTORY,
                    quoted("unit target claim '", target_id, "' is absent from the compiled inventory"),
                ),
            );
        },
    };
    let theorem = match &unit.evidence_unit.theorem {
        Some(t) => t.as_str(),
        None => "",
    };
    proof {
        assert(claim_ids(output.claims@).contains(target_id@));
        lemma_position_found(claim_ids(output.claims@), target_id@, 0);
    }
    let attributed = &output.claims[target_index];
    if !str_equal(attributed.declaration.as_str(), theorem) {
        let mut m = quoted("unit theorem mismatch for '", target_id, "': configured '");
        m.append(theorem);
        m.append("', attributed '");
        m.append(attributed.declaration.as_str());
        m.append("'");
        return Err(fault_of(DECLARATION, m));
    }
    let assumptions = sorted_set_of(&crate::text::char_lists(&unit.evidence_unit.assumptions));
    let native = match unit.evidence_unit.evaluation_mode {
        Some(EvaluationMode::Native) => true,
        _ => false,
    };
    let others = crate::inventory::missing_names(
        &assumptions,
        &crate::text::char_lists(&target_verdict.project_assumptions),
    );
    if !all_contained(&assumptions, &target_verdict.project_assumptions) || (!native && others.len() > 0)
        || (native && others.len() == 0) {
        let mut m = "unit assumptions do not classify the audited project axioms and native-evaluation boundary exactly; configured=".to_owned();
        m.append(debug_set(&crate::text::strings_of(&assumptions)).as_str());
        m.append(", audited_project_axioms=");
        m.append(debug_set(&target_verdict.project_assumptions).as_str());
        m.append(", evaluation_mode=");
        m.append(mode_text(unit.evidence_unit.evaluation_mode));
        return Err(
            AdapterError::new(AXIOM, m.as_str()).remediate(
                "map every project axiom to a registered assumption; kernel units permit no extras, while native units require at least one explicit non-project native-evaluation premise",
            ),
        );
    }
    let compiled = sorted_set_of(&declarations_of(&output.claims));
    Ok(
        VerifiedAudit {
            target: target_index,
            statement_sha256: target_verdict.statement_sha256,
            foundational_axioms: target_verdict.foundational_axioms,
            project_assumptions: target_verdict.project_assumptions,
            bound_artifacts: target_verdict.bound_artifacts,
            inventory: crate::text::strings_of(&compiled),
        },
    )
}

/// Verifies an audit against its unit, comparing pinned statement digests.
pub fn verify_audit(unit: &LeanAdapterUnit, output: &AuditOutput, require_target_digest: bool) -> (r: Result<
    VerifiedAudit,
    AdapterError,
>)
    ensures
        match audit_failure(*unit, *output, require_target_digest, true) {
            Some(f) => (r matches Err(e) && is_failure(e, f)),
            None => (r matches Ok(v) && audit_accepted(*unit, *output, v)),
        },
{
    verify_audit_with_policy(unit, output, require_target_digest, true)
}

/// Checks every compiled fact of an audit while observing, not accepting,
/// the current statement digests.
pub fn observe_audit(unit: &LeanAdapterUnit, output: &AuditOutput) -> (r: Result<VerifiedAudit, AdapterError>)
    ensures
        match audit_failure(*unit, *output, false, false) {
            Some(f) => (r matches Err(e) && is_failure(e, f)),
            None => (r matches Ok(v) && audit_accepted(*unit, *output, v)),
        },
{
    verify_audit_with_policy(unit, output, false, false)
}

/// An accepted audit reconciles both inventories in both directions: the
/// compiled claim identifiers are exactly the registered ones, the compiled
/// declarations are exactly the unit's expected inventory, and the target
/// claim's compiled declaration is the configured theorem.
pub proof fn lemma_accepted_audit_reconciles(
    unit: LeanAdapterUnit,
    output: AuditOutput,
    require_target_digest: bool,
    compare_pinned_digests: bool,
)
    requires
        audit_failure(unit, output, require_target_digest, compare_pinned_digests) is None,
    ensures
        sorted_set(expected_ids(unit.claim_inventory@)) == sorted_set(claim_ids(output.claims@)),
        sorted_set(string_views(unit.evidence_unit.expected_inventory@)) == sorted_set(
            claim_declarations(output.claims@),
        ),
        sorted_set(expected_ids(unit.claim_inventory@)).contains(unit.evidence_unit.claims@[0]@),
        attributed_claim(output.claims@, unit.evidence_unit.claims@[0]@).declaration@
            == unit.evidence_unit.theorem->0@,
{
    reveal(inventory_failure);
}

proof fn lemma_observing_claims(
    inventory: Seq<ExpectedClaim>,
    claims: Seq<AuditClaim>,
    ids: Seq<Seq<char>>,
    n: nat,
    target: Seq<char>,
    require_target_digest: bool,
)
    requires
        id_failures(inventory, claims, ids, n, target, require_target_digest, true) is None,
    ensures
        id_failures(inventory, claims, ids, n, target, false, false) is None,
    decreases n,
{
    reveal(id_failure);
    if 0 < n <= ids.len() {
        lemma_observing_claims(inventory, claims, ids, (n - 1) as nat, target, require_target_digest);
    }
}

/// Observing an audit never rejects one that checking accepts: the update
/// operation only stops comparing pinned statement digests.
pub proof fn lemma_observation_accepts_checked(
    unit: LeanAdapterUnit,
    output: AuditOutput,
    require_target_digest: bool,
)
    requires
        audit_failure(unit, output, require_target_digest, true) is None,
    ensures
        audit_failure(unit, output, false, false) is None,
{
    let e = sorted_set(expected_ids(unit.claim_inventory@));
    lemma_observing_claims(
        unit.claim_inventory@,
        output.claims@,
        e,
        e.len(),
        unit.evidence_unit.claims@[0]@,
        require_target_digest,
    );
}

/// Observing returns what checking returns: where checking accepts an
/// audit, observation accepts it too, and the two give the same target,
/// statement digest, axioms, assumptions, artifacts and inventory.
pub proof fn lemma_observation_returns_checked_fields(
    unit: LeanAdapterUnit,
    output: AuditOutput,
    require_target_digest: bool,
    checked: VerifiedAudit,
    observed: VerifiedAudit,
)
    requires
        audit_failure(unit, output, require_target_digest, true) is None,
        audit_accepted(unit, output, checked),
        audit_accepted(unit, output, observed),
    ensures
        audit_failure(unit, output, false, false) is None,
        checked.target == observed.target,
        checked.statement_sha256@ == observed.statement_sha256@,
        string_views(checked.foundational_axioms@) == string_views(observed.foundational_axioms@),
        string_views(checked.project_assumptions@) == string_views(observed.project_assumptions@),
        string_views(checked.bound_artifacts@) == string_views(observed.bound_artifacts@),
        string_views(checked.inventory@) == string_views(observed.inventory@),
{
    lemma_observation_accepts_checked(unit, output, require_target_digest);
}


proof fn lemma_codes_are_not_drift()
    ensures
        DECLARATION != STATEMENT_DRIFT,
        AXIOM != STATEMENT_DRIFT,
        EXPR_WIRE != STATEMENT_DRIFT,
        ARTIFACT_BINDING != STATEMENT_DRIFT,
{
    reveal_strlit("PB-LEAN-0006");
    reveal_strlit("PB-LEAN-0007");
    reveal_strlit("PB-LEAN-0008");
    reveal_strlit("PB-LEAN-0009");
    reveal_strlit("PB-LEAN-0013");
    assert(DECLARATION@ != STATEMENT_DRIFT@) by {
        assert(DECLARATION@[11] != STATEMENT_DRIFT@[11]);
    }
    assert(AXIOM@ != STATEMENT_DRIFT@) by {
        assert(AXIOM@[11] != STATEMENT_DRIFT@[11]);
    }
    assert(EXPR_WIRE@ != STATEMENT_DRIFT@) by {
        assert(EXPR_WIRE@[11] != STATEMENT_DRIFT@[11]);
    }
    assert(ARTIFACT_BINDING@ != STATEMENT_DRIFT@) by {
        assert(ARTIFACT_BINDING@[10] != STATEMENT_DRIFT@[10]);
    }
}

/// Observation reports no statement drift for any claim: with pinned
/// digests not compared, a claim fails only by its compiled comparison.
pub proof fn lemma_observed_claims_never_drift(
    inventory: Seq<ExpectedClaim>,
    claims: Seq<AuditClaim>,
    ids: Seq<Seq<char>>,
    n: nat,
    target: Seq<char>,
    require_target_digest: bool,
)
    ensures
        id_failures(inventory, claims, ids, n, target, require_target_digest, false) matches Some(f) ==> f.0
            != STATEMENT_DRIFT,
    decreases n,
{
    reveal(id_failure);
    reveal(claim_outcome);
    lemma_codes_are_not_drift();
    if 0 < n <= ids.len() {
        lemma_observed_claims_never_drift(inventory, claims, ids, (n - 1) as nat, target, require_target_digest);
    }
}



/// A fault, where there is one, is not statement drift.
pub open spec fn drift_free(f: Option<Fault>) -> bool {
    f matches Some(x) ==> x.0 != STATEMENT_DRIFT
}

proof fn lemma_configuration_codes_are_not_drift()
    ensures
        INVENTORY != STATEMENT_DRIFT,
        CONFIGURATION != STATEMENT_DRIFT,
        AUDIT_OUTPUT != STATEMENT_DRIFT,
{
    reveal_strlit("PB-LEAN-0002");
    reveal_strlit("PB-LEAN-0004");
    reveal_strlit("PB-LEAN-0005");
    reveal_strlit("PB-LEAN-0008");
    assert(INVENTORY@[11] != STATEMENT_DRIFT@[11]);
    assert(CONFIGURATION@[11] != STATEMENT_DRIFT@[11]);
    assert(AUDIT_OUTPUT@[11] != STATEMENT_DRIFT@[11]);
}

proof fn lemma_all_codes_are_not_drift()
    ensures
        INVENTORY != STATEMENT_DRIFT,
        CONFIGURATION != STATEMENT_DRIFT,
        AUDIT_OUTPUT != STATEMENT_DRIFT,
        DECLARATION != STATEMENT_DRIFT,
        AXIOM != STATEMENT_DRIFT,
        EXPR_WIRE != STATEMENT_DRIFT,
        ARTIFACT_BINDING != STATEMENT_DRIFT,
{
    lemma_configuration_codes_are_not_drift();
    lemma_codes_are_not_drift();
}

proof fn lemma_first_fault_drift_free(values: Seq<Seq<char>>, n: nat, check: spec_fn(Seq<char>) -> Option<Fault>)
    requires
        forall|v: Seq<char>| drift_free(#[trigger] check(v)),
    ensures
        drift_free(first_fault(values, n, check)),
    decreases n,
{
    if 0 < n <= values.len() {
        lemma_first_fault_drift_free(values, (n - 1) as nat, check);
        assert(drift_free(check(values[n - 1])));
    }
}

proof fn lemma_names_drift_free(values: Seq<Seq<char>>, n: nat, kind: Seq<char>)
    ensures
        drift_free(names_fault(values, n, kind)),
    decreases n,
{
    lemma_all_codes_are_not_drift();
    if 0 < n <= values.len() {
        lemma_names_drift_free(values, (n - 1) as nat, kind);
    }
}

proof fn lemma_unit_drift_free(unit: LeanAdapterUnit)
    ensures
        drift_free(unit_fault(unit)),
{
    lemma_all_codes_are_not_drift();
    let e = unit.evidence_unit;
    let files = string_views(e.paths@) + string_views(e.inputs@) + string_views(e.outputs@);
    let names = string_views(e.targets@) + string_views(e.expected_inventory@);
    let ids = string_views(e.assumptions@) + string_views(e.premises@);
    let ff = |v: Seq<char>| file_fault(v);
    let tf = |v: Seq<char>| target_fault(v);
    let cf = |v: Seq<char>| claim_id_fault(v);
    let af = |v: Seq<char>| allowlist_fault(v);
    assert forall|v: Seq<char>| drift_free(#[trigger] ff(v)) by {}
    assert forall|v: Seq<char>| drift_free(#[trigger] tf(v)) by {}
    assert forall|v: Seq<char>| drift_free(#[trigger] cf(v)) by {}
    assert forall|v: Seq<char>| drift_free(#[trigger] af(v)) by {}
    lemma_first_fault_drift_free(files, files.len(), ff);
    lemma_first_fault_drift_free(names, names.len(), tf);
    lemma_first_fault_drift_free(ids, ids.len(), cf);
    lemma_first_fault_drift_free(string_views(e.environment_allowlist@), e.environment_allowlist@.len(), af);
    lemma_first_fault_drift_free(string_views(e.claims@), e.claims@.len(), cf);
    assert(drift_free(unit_item_fault(e)));
    assert(drift_free(evidence_fault(e)));
    let inventory = unit.claim_inventory@;
    lemma_registered_drift_free(inventory, inventory.len());
}

proof fn lemma_foundational_drift_free(axioms: Seq<Seq<char>>, n: nat, project: Seq<Seq<char>>)
    ensures
        drift_free(foundational_fault(axioms, n, project)),
    decreases n,
{
    lemma_all_codes_are_not_drift();
    if 0 < n <= axioms.len() {
        lemma_foundational_drift_free(axioms, (n - 1) as nat, project);
    }
}

proof fn lemma_project_drift_free(pairs: Seq<(String, String)>, n: nat)
    ensures
        drift_free(project_fault(pairs, n)),
    decreases n,
{
    lemma_all_codes_are_not_drift();
    if 0 < n <= pairs.len() {
        lemma_project_drift_free(pairs, (n - 1) as nat);
    }
}

proof fn lemma_registered_drift_free(claims: Seq<ExpectedClaim>, n: nat)
    ensures
        drift_free(registered_faults(claims, n)),
    decreases n,
{
    lemma_all_codes_are_not_drift();
    if 0 < n <= claims.len() {
        lemma_registered_drift_free(claims, (n - 1) as nat);
        let c = claims[n - 1];
        let foundational = string_views(c.foundational_axioms@);
        lemma_foundational_drift_free(foundational, foundational.len(), project_axiom_names(c.project_axioms@));
        lemma_project_drift_free(c.project_axioms@, c.project_axioms@.len());
        assert(drift_free(
            registered_fault(c, expected_ids(claims.take(n - 1)), expected_declarations(claims.take(n - 1))),
        ));
    }
}

proof fn lemma_exemptions_drift_free(exemptions: Seq<AuditExemption>, n: nat, attributed: Seq<Seq<char>>)
    ensures
        drift_free(exemptions_fault(exemptions, n, attributed)),
    decreases n,
{
    lemma_all_codes_are_not_drift();
    if 0 < n <= exemptions.len() {
        lemma_exemptions_drift_free(exemptions, (n - 1) as nat, attributed);
    }
}

proof fn lemma_attributed_drift_free(claims: Seq<AuditClaim>, n: nat)
    ensures
        drift_free(attributed_faults(claims, n)),
    decreases n,
{
    lemma_all_codes_are_not_drift();
    if 0 < n <= claims.len() {
        lemma_attributed_drift_free(claims, (n - 1) as nat);
        let c = claims[n - 1];
        let axioms = string_views(c.axioms@);
        lemma_names_drift_free(axioms, axioms.len(), "audited axiom"@);
    }
}

/// Observing an audit never fails with statement drift: its pinned
/// statement digests are observed, not compared.
pub proof fn lemma_observation_never_drifts(unit: LeanAdapterUnit, output: AuditOutput)
    ensures
        audit_failure(unit, output, false, false) matches Some(f) ==> f.0 != STATEMENT_DRIFT,
{
    reveal(inventory_failure);
    reveal(claim_outcome);
    lemma_all_codes_are_not_drift();
    lemma_unit_drift_free(unit);
    lemma_exemptions_drift_free(output.exemptions@, output.exemptions@.len(), claim_declarations(output.claims@));
    lemma_attributed_drift_free(output.claims@, output.claims@.len());
    let e = sorted_set(expected_ids(unit.claim_inventory@));
    lemma_observed_claims_never_drift(
        unit.claim_inventory@,
        output.claims@,
        e,
        e.len(),
        unit.evidence_unit.claims@[0]@,
        false,
    );
}


/// A theorem is covered by a target exactly when it is the target or lies
/// in the target's namespace: the target, then a `.`, then more. A name
/// that merely begins with the target's text (such as `Demo.add_comm` for
/// `Demo.add`) is not covered.
pub proof fn lemma_coverage_is_by_namespace(theorem: Seq<char>, target: Seq<char>)
    ensures
        covered_by(theorem, target) <==> (theorem == target || (theorem.len() > target.len() && theorem.take(
            target.len() as int,
        ) == target && theorem[target.len() as int] == '.')),
{
    let dotted = target + "."@;
    reveal_strlit(".");
    if theorem.len() > target.len() && theorem.take(target.len() as int) == target && theorem[target.len() as int]
        == '.' {
        assert(theorem.subrange(0, dotted.len() as int) =~= dotted);
    }
    if starts_with(theorem, dotted) {
        assert(theorem.subrange(0, dotted.len() as int) == dotted);
        assert(theorem.take(target.len() as int) =~= dotted.take(target.len() as int));
        assert(dotted.take(target.len() as int) =~= target);
        assert(theorem[target.len() as int] == theorem.subrange(0, dotted.len() as int)[target.len() as int]);
    }
}


/// A unit `validate_unit` accepts has one target, and its theorem is that
/// target or lies in the target's namespace.
pub proof fn lemma_accepted_unit_theorem_is_in_its_target(unit: LeanAdapterUnit)
    requires
        unit_fault(unit) is None,
    ensures
        unit.evidence_unit.targets@.len() == 1,
        unit.evidence_unit.theorem is Some,
        ({
            let t = unit.evidence_unit.theorem->0@;
            let g = unit.evidence_unit.targets@[0]@;
            t == g || (t.len() > g.len() && t.take(g.len() as int) == g && t[g.len() as int] == '.')
        }),
{
    lemma_coverage_is_by_namespace(unit.evidence_unit.theorem->0@, unit.evidence_unit.targets@[0]@);
}

} // verus!
