//! The manifests of a Charon/Aeneas translation: the evidence unit it
//! serves, the translation unit itself and the toolchain lock.
use vstd::prelude::*;
use crate::aeneas::{
    require_unique, validate_relative_path, AdapterError, ImportMappingMode, TranslationUnit, ADAPTER_ID,
};
use crate::audit::ResourceBudget;
use crate::inventory::{has_duplicates, lists_equal, MAX_INVENTORY};
use crate::names::{
    is_safe_atom, is_safe_symbol, is_sha256_text, safe_atom, safe_symbol, valid_digest,
};
use crate::paths::{components, is_relative_path, path_contains, path_contains_spec};
use crate::lean::is_blank;
use crate::text::{
    char_lists, chars_of, decimal, push_decimal, starts_with, str_equal, string_views, trim,
    utf8_error_text, utf8_text, views,
};
use vstd::utf8::{decode_utf8, valid_utf8};

verus! {

/// A failure of a translation manifest, as plain values.
pub enum ManifestFault {
    Unit(Seq<char>),
    UnsafePath(Seq<char>),
    Toolchain(Seq<char>),
    Inventory(Seq<char>),
}

/// The error `e` is the fault `f`.
pub open spec fn is_manifest_fault(e: AdapterError, f: ManifestFault) -> bool {
    match f {
        ManifestFault::Unit(m) => e matches AdapterError::Unit(x) && x@ == m,
        ManifestFault::UnsafePath(m) => e matches AdapterError::UnsafePath(x) && x@ == m,
        ManifestFault::Toolchain(m) => e matches AdapterError::Toolchain(x) && x@ == m,
        ManifestFault::Inventory(m) => e matches AdapterError::Inventory(x) && x@ == m,
    }
}

/// The evidence unit a translation serves, as the rules read it; kinds
/// keep their manifest spelling.
#[derive(Clone, Debug)]
pub struct TranslationEvidence {
    pub schema: String,
    pub adapter: String,
    pub operation_kind: String,
    pub claims: Vec<String>,
    pub targets: Vec<String>,
    pub inputs: Vec<String>,
    pub outputs: Vec<String>,
    pub environment_allowlist: Vec<String>,
    pub refinement_theorem: Option<String>,
    pub resource_budget: ResourceBudget,
}

/// The fault of a list beyond the inventory bound or with a repeat.
pub open spec fn unique_fault(label: Seq<char>, values: Seq<Seq<char>>) -> Option<ManifestFault> {
    if values.len() <= MAX_INVENTORY && !has_duplicates(values) {
        None
    } else {
        Some(ManifestFault::Unit(label + " is too large or contains duplicates"@))
    }
}

/// What is wrong with the evidence unit of a translation, if anything.
pub open spec fn evidence_unit_fault(e: TranslationEvidence) -> Option<ManifestFault> {
    if e.schema@ != "proofbound-evidence-unit/1"@ || e.adapter@ != ADAPTER_ID@ || e.operation_kind@
        != "translation"@ {
        Some(ManifestFault::Unit("expected a proofbound-evidence-unit/1 charon-aeneas translation operation"@))
    } else if unique_fault("claims"@, string_views(e.claims@)) is Some {
        unique_fault("claims"@, string_views(e.claims@))
    } else if unique_fault("targets"@, string_views(e.targets@)) is Some {
        unique_fault("targets"@, string_views(e.targets@))
    } else if unique_fault("inputs"@, string_views(e.inputs@)) is Some {
        unique_fault("inputs"@, string_views(e.inputs@))
    } else if unique_fault("outputs"@, string_views(e.outputs@)) is Some {
        unique_fault("outputs"@, string_views(e.outputs@))
    } else if unique_fault("environment"@, string_views(e.environment_allowlist@)) is Some {
        unique_fault("environment"@, string_views(e.environment_allowlist@))
    } else if e.claims@.len() == 0 || !(e.refinement_theorem matches Some(t) && t@.len() > 0) {
        Some(ManifestFault::Unit("source-refinement evidence requires claims and refinement_theorem"@))
    } else if e.outputs@.len() > 0 {
        Some(
            ManifestFault::Unit(
                "translation outputs are owned by the translation manifest, not the evidence unit"@,
            ),
        )
    } else if e.resource_budget.time_seconds == 0 || e.resource_budget.disk_bytes == 0
        || e.resource_budget.memory_bytes == 0 {
        Some(ManifestFault::Unit("resource budgets must be non-zero"@))
    } else {
        None
    }
}

fn unit_error(message: &str) -> (e: AdapterError)
    ensures
        e matches AdapterError::Unit(x) && x@ == message@,
{
    AdapterError::Unit(message.to_owned())
}

/// Checks the evidence unit a translation serves.
pub fn validate_evidence_unit(unit: &TranslationEvidence) -> (r: Result<(), AdapterError>)
    ensures
        match evidence_unit_fault(*unit) {
            None => r is Ok,
            Some(f) => (r matches Err(e) && is_manifest_fault(e, f)),
        },
{
    if !str_equal(unit.schema.as_str(), "proofbound-evidence-unit/1") || !str_equal(
        unit.adapter.as_str(),
        ADAPTER_ID,
    ) || !str_equal(unit.operation_kind.as_str(), "translation") {
        return Err(unit_error("expected a proofbound-evidence-unit/1 charon-aeneas translation operation"));
    }
    require_unique("claims", &unit.claims)?;
    require_unique("targets", &unit.targets)?;
    require_unique("inputs", &unit.inputs)?;
    require_unique("outputs", &unit.outputs)?;
    require_unique("environment", &unit.environment_allowlist)?;
    let theorem_missing = match &unit.refinement_theorem {
        Some(t) => chars_of(t.as_str()).len() == 0,
        None => true,
    };
    if unit.claims.len() == 0 || theorem_missing {
        return Err(unit_error("source-refinement evidence requires claims and refinement_theorem"));
    }
    if unit.outputs.len() > 0 {
        return Err(unit_error("translation outputs are owned by the translation manifest, not the evidence unit"));
    }
    if unit.resource_budget.time_seconds == 0 || unit.resource_budget.disk_bytes == 0
        || unit.resource_budget.memory_bytes == 0 {
        return Err(unit_error("resource budgets must be non-zero"));
    }
    Ok(())
}

/// The first of `values[..n]` that `ok` rejects.
pub open spec fn first_bad(values: Seq<Seq<char>>, n: nat, ok: spec_fn(Seq<char>) -> bool) -> Option<Seq<char>>
    decreases n,
{
    if n == 0 || n > values.len() {
        None
    } else {
        match first_bad(values, (n - 1) as nat, ok) {
            Some(v) => Some(v),
            None => if ok(values[n - 1]) {
                None
            } else {
                Some(values[n - 1])
            },
        }
    }
}

/// The first of `values` that `ok` rejects.
pub open spec fn any_bad(values: Seq<Seq<char>>, ok: spec_fn(Seq<char>) -> bool) -> Option<Seq<char>> {
    first_bad(values, values.len(), ok)
}

proof fn lemma_first_bad_prefix(s: Seq<Seq<char>>, t: Seq<Seq<char>>, ok: spec_fn(Seq<char>) -> bool, n: nat)
    requires
        n <= s.len(),
        n <= t.len(),
        s.take(n as int) == t.take(n as int),
    ensures
        first_bad(s, n, ok) == first_bad(t, n, ok),
    decreases n,
{
    if n > 0 {
        assert(s[n - 1] == s.take(n as int)[n - 1]);
        assert(t[n - 1] == t.take(n as int)[n - 1]);
        assert(s.take(n - 1) =~= s.take(n as int).take(n - 1));
        assert(t.take(n - 1) =~= t.take(n as int).take(n - 1));
        lemma_first_bad_prefix(s, t, ok, (n - 1) as nat);
    }
}

/// The first rejected item of `a ++ b` is that of `a`, else that of `b`.
proof fn lemma_first_bad_concat(a: Seq<Seq<char>>, b: Seq<Seq<char>>, ok: spec_fn(Seq<char>) -> bool, n: nat)
    requires
        n <= b.len(),
    ensures
        first_bad(a + b, a.len() + n, ok) == match any_bad(a, ok) {
            Some(v) => Some(v),
            None => first_bad(b, n, ok),
        },
    decreases n,
{
    if n == 0 {
        assert((a + b).take(a.len() as int) =~= a);
        assert(a.take(a.len() as int) =~= a);
        lemma_first_bad_prefix(a + b, a, ok, a.len());
    } else {
        lemma_first_bad_concat(a, b, ok, (n - 1) as nat);
        assert((a + b)[a.len() + n - 1] == b[n - 1]);
    }
}

pub proof fn lemma_first_bad_extends(values: Seq<Seq<char>>, ok: spec_fn(Seq<char>) -> bool, m: nat, n: nat)
    requires
        m <= n <= values.len(),
    ensures
        first_bad(values, m, ok) is Some ==> first_bad(values, n, ok) == first_bad(values, m, ok),
    decreases n - m,
{
    if m < n {
        lemma_first_bad_extends(values, ok, m, (n - 1) as nat);
    }
}

/// The item rules of a translation unit.
#[derive(Clone, Copy, Debug, PartialEq, Eq, Structural)]
pub enum NameRule {
    Atom,
    Symbol,
    RelativePath,
    /// A Cargo target selector.
    CargoSelector,
    /// The last part of a test name.
    TestTail,
}

/// What each item rule accepts.
pub open spec fn rule_ok(rule: NameRule) -> spec_fn(Seq<char>) -> bool {
    match rule {
        NameRule::Atom => |v: Seq<char>| is_safe_atom(v),
        NameRule::Symbol => |v: Seq<char>| is_safe_symbol(v),
        NameRule::RelativePath => |v: Seq<char>| is_relative_path(v),
        NameRule::CargoSelector => |v: Seq<char>| crate::testing::is_cargo_selector(v),
        NameRule::TestTail => |v: Seq<char>| crate::names::is_test_tail(v),
    }
}

pub fn accepts(value: &str, rule: NameRule) -> (b: bool)
    ensures
        b == (rule_ok(rule))(value@),
{
    match rule {
        NameRule::Atom => safe_atom(value),
        NameRule::Symbol => safe_symbol(value),
        NameRule::RelativePath => crate::paths::relative_path_ok(value),
        NameRule::CargoSelector => crate::testing::validate_cargo_selector(value).is_ok(),
        NameRule::TestTail => crate::names::safe_test_tail(value),
    }
}

/// The first of `values` that `rule` rejects.
pub fn find_bad(values: &Vec<String>, rule: NameRule) -> (r: Option<usize>)
    ensures
        match any_bad(string_views(values@), rule_ok(rule)) {
            None => r is None,
            Some(v) => (r matches Some(i) && i < values@.len() && values@[i as int]@ == v),
        },
{
    let ghost vs = string_views(values@);
    let mut i: usize = 0;
    while i < values.len()
        invariant
            i <= values@.len(),
            vs == string_views(values@),
            first_bad(vs, i as nat, rule_ok(rule)) is None,
        decreases values@.len() - i,
    {
        proof {
            assert(vs[i as int] == values@[i as int]@);
            lemma_first_bad_extends(vs, rule_ok(rule), (i + 1) as nat, vs.len());
        }
        if !accepts(values[i].as_str(), rule) {
            return Some(i);
        }
        i = i + 1;
    }
    None
}

/// The paths a valid translation unit names that must exist in the project:
/// the handwritten refinement, then each external source root.
pub open spec fn required_paths(unit: TranslationUnit) -> Seq<Seq<char>> {
    match unit.import_mapping {
        Some(m) => if m.mode == ImportMappingMode::ExternalSourceRoot {
            seq![unit.handwritten_refinement@] + string_views(m.source_roots@)
        } else {
            seq![unit.handwritten_refinement@]
        },
        None => seq![unit.handwritten_refinement@],
    }
}

/// What is wrong with a translation unit, judged against its evidence
/// unit, if anything.
pub open spec fn translation_unit_fault(evidence: TranslationEvidence, unit: TranslationUnit) -> Option<
    ManifestFault,
> {
    let symbols = string_views(unit.start_from@) + string_views(unit.opaque@) + string_views(
        unit.included@,
    );
    if unit.schema@ != "proofbound-translation-unit/1"@ || unit.adapter@ != ADAPTER_ID@
        || unit.determinism_runs != 2 || unit.determinism_normalization@ != "pretty-printed-llbc/1"@
        || !unit.forbid_generated_axioms {
        Some(
            ManifestFault::Unit(
                "translation requires schema v1, two runs, pretty-printed-llbc/1, and forbidden generated axioms"@,
            ),
        )
    } else if unique_fault("packages"@, string_views(unit.packages@)) is Some {
        unique_fault("packages"@, string_views(unit.packages@))
    } else if unique_fault("start_from"@, string_views(unit.start_from@)) is Some {
        unique_fault("start_from"@, string_views(unit.start_from@))
    } else if unique_fault("opaque"@, string_views(unit.opaque@)) is Some {
        unique_fault("opaque"@, string_views(unit.opaque@))
    } else if unique_fault("include"@, string_views(unit.included@)) is Some {
        unique_fault("include"@, string_views(unit.included@))
    } else if unique_fault("claims"@, string_views(unit.claims@)) is Some {
        unique_fault("claims"@, string_views(unit.claims@))
    } else if unit.packages@.len() == 0 || unit.start_from@.len() == 0 || unit.claims@.len() == 0 {
        Some(ManifestFault::Unit("translation packages, start_from, and claims must be non-empty"@))
    } else if string_views(evidence.targets@) != string_views(unit.start_from@) || string_views(
        evidence.claims@,
    ) != string_views(unit.claims@) || evidence.resource_budget != unit.resource_budget {
        Some(ManifestFault::Unit("evidence and translation manifests disagree on targets, claims, or budget"@))
    } else if any_bad(string_views(unit.packages@), rule_ok(NameRule::Atom)) is Some {
        Some(
            ManifestFault::Unit(
                "invalid package `"@ + any_bad(string_views(unit.packages@), rule_ok(NameRule::Atom))->0
                    + "`"@,
            ),
        )
    } else if any_bad(symbols, rule_ok(NameRule::Symbol)) is Some {
        Some(
            ManifestFault::Unit(
                "invalid translation symbol `"@ + any_bad(symbols, rule_ok(NameRule::Symbol))->0 + "`"@,
            ),
        )
    } else if !is_relative_path(unit.generated_dir@) {
        Some(ManifestFault::UnsafePath(unit.generated_dir@))
    } else if !is_relative_path(unit.handwritten_refinement@) {
        Some(ManifestFault::UnsafePath(unit.handwritten_refinement@))
    } else if components(unit.generated_dir@).len() < 2 {
        Some(ManifestFault::Unit("generated_dir must not be a top-level project path"@))
    } else if path_contains_spec(unit.generated_dir@, unit.handwritten_refinement@) {
        Some(ManifestFault::Unit("handwritten refinement must remain outside generated_dir"@))
    } else {
        match unit.import_mapping {
            None => Some(ManifestFault::Unit("translation unit requires an explicit import_mapping"@)),
            Some(m) => if m.mode == ImportMappingMode::ExternalSourceRoot {
                if m.source_roots@.len() == 0 || m.rewrite_digest is Some {
                    Some(
                        ManifestFault::Unit(
                            "external-source-root mapping requires roots and no rewrite digest"@,
                        ),
                    )
                } else {
                    match any_bad(string_views(m.source_roots@), rule_ok(NameRule::RelativePath)) {
                        Some(p) => Some(ManifestFault::UnsafePath(p)),
                        None => None,
                    }
                }
            } else if m.source_roots@.len() == 0 || !(m.rewrite_digest matches Some(d) && is_sha256_text(
                d@,
            )) {
                Some(
                    ManifestFault::Unit(
                        "audited-rewrite mapping requires roots and a sha256 rewrite digest"@,
                    ),
                )
            } else {
                None
            },
        }
    }
}

fn same_strings(a: &Vec<String>, b: &Vec<String>) -> (r: bool)
    ensures
        r == (string_views(a@) == string_views(b@)),
{
    lists_equal(&char_lists(a), &char_lists(b))
}

fn component_count_below_two(path: &str) -> (b: bool)
    ensures
        b == (components(path@).len() < 2),
{
    let p = chars_of(path);
    crate::paths::components_of(p.as_slice()).len() < 2
}

/// Checks a translation unit against the evidence unit it serves, and
/// returns the project paths that must exist for it: the handwritten
/// refinement and, for an external source root mapping, each source root.
pub fn validate_translation_unit(evidence: &TranslationEvidence, unit: &TranslationUnit) -> (r: Result<
    Vec<String>,
    AdapterError,
>)
    ensures
        match translation_unit_fault(*evidence, *unit) {
            None => (r matches Ok(paths) && string_views(paths@) == required_paths(*unit)),
            Some(f) => (r matches Err(e) && is_manifest_fault(e, f)),
        },
{
    if !str_equal(unit.schema.as_str(), "proofbound-translation-unit/1") || !str_equal(
        unit.adapter.as_str(),
        ADAPTER_ID,
    ) || unit.determinism_runs != 2 || !str_equal(
        unit.determinism_normalization.as_str(),
        "pretty-printed-llbc/1",
    ) || !unit.forbid_generated_axioms {
        return Err(
            unit_error(
                "translation requires schema v1, two runs, pretty-printed-llbc/1, and forbidden generated axioms",
            ),
        );
    }
    require_unique("packages", &unit.packages)?;
    require_unique("start_from", &unit.start_from)?;
    require_unique("opaque", &unit.opaque)?;
    require_unique("include", &unit.included)?;
    require_unique("claims", &unit.claims)?;
    if unit.packages.len() == 0 || unit.start_from.len() == 0 || unit.claims.len() == 0 {
        return Err(unit_error("translation packages, start_from, and claims must be non-empty"));
    }
    if !same_strings(&evidence.targets, &unit.start_from) || !same_strings(&evidence.claims, &unit.claims)
        || evidence.resource_budget != unit.resource_budget {
        return Err(unit_error("evidence and translation manifests disagree on targets, claims, or budget"));
    }
    match find_bad(&unit.packages, NameRule::Atom) {
        Some(i) => {
            let mut m = "invalid package `".to_owned();
            m.append(unit.packages[i].as_str());
            m.append("`");
            return Err(AdapterError::Unit(m));
        },
        None => {},
    }
    let ghost a = string_views(unit.start_from@);
    let ghost b = string_views(unit.opaque@);
    let ghost c = string_views(unit.included@);
    proof {
        lemma_first_bad_concat(a + b, c, rule_ok(NameRule::Symbol), c.len());
        lemma_first_bad_concat(a, b, rule_ok(NameRule::Symbol), b.len());
    }
    let bad_symbol: Option<&String> = match find_bad(&unit.start_from, NameRule::Symbol) {
        Some(i) => Some(&unit.start_from[i]),
        None => match find_bad(&unit.opaque, NameRule::Symbol) {
            Some(i) => Some(&unit.opaque[i]),
            None => match find_bad(&unit.included, NameRule::Symbol) {
                Some(i) => Some(&unit.included[i]),
                None => None,
            },
        },
    };
    match bad_symbol {
        Some(symbol) => {
            let mut m = "invalid translation symbol `".to_owned();
            m.append(symbol.as_str());
            m.append("`");
            return Err(AdapterError::Unit(m));
        },
        None => {},
    }
    validate_relative_path(unit.generated_dir.as_str())?;
    validate_relative_path(unit.handwritten_refinement.as_str())?;
    if component_count_below_two(unit.generated_dir.as_str()) {
        return Err(unit_error("generated_dir must not be a top-level project path"));
    }
    if path_contains(unit.generated_dir.as_str(), unit.handwritten_refinement.as_str()) {
        return Err(unit_error("handwritten refinement must remain outside generated_dir"));
    }
    let mut paths: Vec<String> = Vec::new();
    paths.push(unit.handwritten_refinement.as_str().to_owned());
    match &unit.import_mapping {
        None => {
            return Err(unit_error("translation unit requires an explicit import_mapping"));
        },
        Some(mapping) => {
            match mapping.mode {
                ImportMappingMode::ExternalSourceRoot => {
                    if mapping.source_roots.len() == 0 || mapping.rewrite_digest.is_some() {
                        return Err(unit_error("external-source-root mapping requires roots and no rewrite digest"));
                    }
                    match find_bad(&mapping.source_roots, NameRule::RelativePath) {
                        Some(i) => {
                            return Err(AdapterError::UnsafePath(mapping.source_roots[i].as_str().to_owned()));
                        },
                        None => {},
                    }
                    let ghost head = string_views(paths@);
                    let mut k: usize = 0;
                    while k < mapping.source_roots.len()
                        invariant
                            k <= mapping.source_roots@.len(),
                            head == seq![unit.handwritten_refinement@],
                            string_views(paths@) == head + string_views(mapping.source_roots@).take(k as int),
                        decreases mapping.source_roots@.len() - k,
                    {
                        let ghost before = string_views(paths@);
                        paths.push(mapping.source_roots[k].as_str().to_owned());
                        proof {
                            assert(string_views(mapping.source_roots@).take(k + 1) =~= string_views(
                                mapping.source_roots@,
                            ).take(k as int).push(mapping.source_roots@[k as int]@));
                            assert(string_views(paths@) =~= before.push(mapping.source_roots@[k as int]@));
                        }
                        k = k + 1;
                    }
                    proof {
                        assert(string_views(mapping.source_roots@).take(mapping.source_roots@.len() as int)
                            =~= string_views(mapping.source_roots@));
                    }
                },
                ImportMappingMode::AuditedRewrite => {
                    let digest_ok = match &mapping.rewrite_digest {
                        Some(d) => valid_digest(d.as_str()),
                        None => false,
                    };
                    if mapping.source_roots.len() == 0 || !digest_ok {
                        return Err(unit_error("audited-rewrite mapping requires roots and a sha256 rewrite digest"));
                    }
                    proof {
                        assert(string_views(paths@) =~= seq![unit.handwritten_refinement@]);
                    }
                },
            }
        },
    }
    Ok(paths)
}

/// The toolchain lock of a translation.
#[derive(Clone, Debug)]
pub struct ToolchainLock {
    pub schema: String,
    pub charon_revision: String,
    pub aeneas_revision: String,
    pub rust_toolchain: String,
    pub lean_toolchain: String,
}

/// A character a concrete revision pin may hold.
pub open spec fn is_pin_char(c: char) -> bool {
    ('0' <= c && c <= '9') || ('a' <= c && c <= 'f') || ('A' <= c && c <= 'F') || c == '.' || c == '-'
        || c == '_' || c == 'v'
}

/// The fault of a revision that is not a concrete pin.
pub open spec fn pin_fault(name: Seq<char>, revision: Seq<char>) -> Option<ManifestFault> {
    if trim(revision).len() == 0 || starts_with(revision, "unavailable"@) || !(forall|i: int|
        0 <= i < revision.len() ==> is_pin_char(#[trigger] revision[i])) {
        Some(ManifestFault::Toolchain(name + " revision `"@ + revision + "` is not a concrete pin"@))
    } else {
        None
    }
}

/// What is wrong with a toolchain lock's own fields, if anything.
pub open spec fn lock_fault(lock: ToolchainLock) -> Option<ManifestFault> {
    if lock.schema@ != "proofbound-translation-toolchain/1"@ {
        Some(ManifestFault::Toolchain("unsupported lock schema"@))
    } else if pin_fault("Charon"@, lock.charon_revision@) is Some {
        pin_fault("Charon"@, lock.charon_revision@)
    } else {
        pin_fault("Aeneas"@, lock.aeneas_revision@)
    }
}

/// The `toolchain.channel` string of a TOML document (`None` when the
/// document has none), or the parser's error text.
pub uninterp spec fn toml_channel(text: Seq<char>) -> Result<Option<Seq<char>>, Seq<char>>;

/// Parses `text` with `toml::from_str` into a `toml::Value` and reads its
/// `toolchain.channel` string; on a parse error, the error's `Display` text.
#[verifier::external_body]
fn toolchain_channel(text: &str) -> (r: Result<Option<String>, String>)
    ensures
        match r {
            Ok(Some(c)) => toml_channel(text@) == Ok::<Option<Seq<char>>, Seq<char>>(Some(c@)),
            Ok(None) => toml_channel(text@) == Ok::<Option<Seq<char>>, Seq<char>>(None),
            Err(m) => toml_channel(text@) == Err::<Option<Seq<char>>, Seq<char>>(m@),
        },
{
    match toml::from_str::<toml::Value>(text) {
        Ok(value) => Ok(
            value.get("toolchain").and_then(|v| v.get("channel")).and_then(toml::Value::as_str).map(
                str::to_owned,
            ),
        ),
        Err(error) => Err(error.to_string()),
    }
}

/// What is wrong with a toolchain lock checked against the project's
/// `rust-toolchain.toml` and `lean-toolchain` bytes, if anything.
pub open spec fn toolchain_fault(lock: ToolchainLock, rust: Seq<u8>, lean: Seq<u8>) -> Option<ManifestFault> {
    if lock_fault(lock) is Some {
        lock_fault(lock)
    } else if !valid_utf8(rust) {
        Some(ManifestFault::Toolchain(utf8_error_text(rust)))
    } else {
        match toml_channel(decode_utf8(rust)) {
            Err(m) => Some(ManifestFault::Toolchain(m)),
            Ok(None) => Some(ManifestFault::Toolchain("rust-toolchain.toml has no toolchain.channel"@)),
            Ok(Some(channel)) => if !valid_utf8(lean) {
                Some(ManifestFault::Toolchain(utf8_error_text(lean)))
            } else {
                let found = trim(decode_utf8(lean));
                if channel != lock.rust_toolchain@ || found != lock.lean_toolchain@ {
                    Some(
                        ManifestFault::Toolchain(
                            "toolchain lock expects Rust `"@ + lock.rust_toolchain@ + "` / Lean `"@
                                + lock.lean_toolchain@ + "`, found `"@ + channel + "` / `"@ + found
                                + "`"@,
                        ),
                    )
                } else {
                    None
                }
            },
        }
    }
}

fn pin_ok(revision: &str) -> (b: bool)
    ensures
        b == (trim(revision@).len() > 0 && !starts_with(revision@, "unavailable"@) && forall|i: int|
            0 <= i < revision@.len() ==> is_pin_char(#[trigger] revision@[i])),
{
    if is_blank(revision) {
        return false;
    }
    let s = chars_of(revision);
    let u = chars_of("unavailable");
    if crate::text::matches_at(s.as_slice(), u.as_slice(), 0) {
        return false;
    }
    let mut i: usize = 0;
    while i < s.len()
        invariant
            i <= s@.len(),
            s@ == revision@,
            forall|k: int| 0 <= k < i ==> is_pin_char(#[trigger] s@[k]),
        decreases s@.len() - i,
    {
        let c = s[i];
        let ok = ('0' <= c && c <= '9') || ('a' <= c && c <= 'f') || ('A' <= c && c <= 'F') || c == '.'
            || c == '-' || c == '_' || c == 'v';
        if !ok {
            proof {
                assert(!is_pin_char(s@[i as int]));
            }
            return false;
        }
        i = i + 1;
    }
    true
}

fn toolchain_error(message: String) -> (e: AdapterError)
    ensures
        e matches AdapterError::Toolchain(x) && x@ == message@,
{
    AdapterError::Toolchain(message)
}

/// Checks a toolchain lock's schema and that both tool revisions are
/// concrete pins.
pub fn validate_toolchain_pins(lock: &ToolchainLock) -> (r: Result<(), AdapterError>)
    ensures
        match lock_fault(*lock) {
            None => r is Ok,
            Some(f) => (r matches Err(e) && is_manifest_fault(e, f)),
        },
{
    if !str_equal(lock.schema.as_str(), "proofbound-translation-toolchain/1") {
        return Err(toolchain_error("unsupported lock schema".to_owned()));
    }
    if !pin_ok(lock.charon_revision.as_str()) {
        let mut m = "Charon".to_owned();
        m.append(" revision `");
        m.append(lock.charon_revision.as_str());
        m.append("` is not a concrete pin");
        return Err(toolchain_error(m));
    }
    if !pin_ok(lock.aeneas_revision.as_str()) {
        let mut m = "Aeneas".to_owned();
        m.append(" revision `");
        m.append(lock.aeneas_revision.as_str());
        m.append("` is not a concrete pin");
        return Err(toolchain_error(m));
    }
    Ok(())
}

fn trimmed(value: &str) -> (out: String)
    ensures
        out@ == trim(value@),
{
    let s = chars_of(value);
    let k = crate::text::trim_start_len(s.as_slice());
    let mut rest: Vec<char> = Vec::new();
    crate::text::extend_range(&mut rest, s.as_slice(), k, s.len());
    let n = crate::text::trim_end_len(rest.as_slice());
    let mut kept: Vec<char> = Vec::new();
    crate::text::extend_range(&mut kept, rest.as_slice(), 0, n);
    proof {
        assert(rest@ =~= s@.skip(k as int));
        assert(kept@ =~= rest@.take(n as int));
    }
    crate::text::string_of(kept.as_slice())
}

/// Checks a toolchain lock against the bytes of the project's
/// `rust-toolchain.toml` and `lean-toolchain`.
pub fn validate_toolchain_lock(lock: &ToolchainLock, rust_toolchain: &[u8], lean_toolchain: &[u8]) -> (r: Result<
    (),
    AdapterError,
>)
    ensures
        match toolchain_fault(*lock, rust_toolchain@, lean_toolchain@) {
            None => r is Ok,
            Some(f) => (r matches Err(e) && is_manifest_fault(e, f)),
        },
{
    validate_toolchain_pins(lock)?;
    let rust_text = match utf8_text(rust_toolchain) {
        Ok(t) => t,
        Err(m) => {
            return Err(toolchain_error(m));
        },
    };
    let channel = match toolchain_channel(rust_text.as_str()) {
        Err(m) => {
            return Err(toolchain_error(m));
        },
        Ok(None) => {
            return Err(toolchain_error("rust-toolchain.toml has no toolchain.channel".to_owned()));
        },
        Ok(Some(c)) => c,
    };
    let lean_text = match utf8_text(lean_toolchain) {
        Ok(t) => t,
        Err(m) => {
            return Err(toolchain_error(m));
        },
    };
    let found = trimmed(lean_text.as_str());
    if !str_equal(channel.as_str(), lock.rust_toolchain.as_str()) || !str_equal(
        found.as_str(),
        lock.lean_toolchain.as_str(),
    ) {
        let mut m = "toolchain lock expects Rust `".to_owned();
        m.append(lock.rust_toolchain.as_str());
        m.append("` / Lean `");
        m.append(lock.lean_toolchain.as_str());
        m.append("`, found `");
        m.append(channel.as_str());
        m.append("` / `");
        m.append(found.as_str());
        m.append("`");
        return Err(toolchain_error(m));
    }
    Ok(())
}

/// One function of a translation report.
#[derive(Clone, Debug)]
pub struct TranslationFunction {
    pub rust_name: String,
    pub is_local: bool,
    pub is_opaque: bool,
}

/// A normalized translation report of one crate.
#[derive(Clone, Debug)]
pub struct TranslationReport {
    pub aeneas_version: String,
    pub charon_version: String,
    pub crate_name: String,
    pub functions: Vec<TranslationFunction>,
}

/// A generated report file: its path and what parsing it gave, the report
/// or the parser's error text.
pub type ReportFile = (String, Result<TranslationReport, String>);

/// Whether a report names one of the configured packages, as written or
/// as a crate segment.
pub open spec fn names_package(packages: Seq<Seq<char>>, crate_name: Seq<char>) -> bool {
    exists|i: int|
        0 <= i < packages.len() && (#[trigger] packages[i] == crate_name || crate::aeneas::crate_segment(
            packages[i],
        ) == crate_name)
}

/// What is wrong with one report file, if anything.
pub open spec fn report_fault(file: ReportFile, packages: Seq<Seq<char>>, lock: ToolchainLock) -> Option<
    ManifestFault,
> {
    match file.1 {
        Err(e) => Some(ManifestFault::Inventory(file.0@ + ": "@ + e@)),
        Ok(r) => if r.aeneas_version@ != lock.aeneas_revision@ || r.charon_version@ != lock.charon_revision@ {
            Some(
                ManifestFault::Toolchain(
                    "normalized translation report `"@ + file.0@ + "` has unpinned tool versions"@,
                ),
            )
        } else if !names_package(packages, r.crate_name@) {
            Some(ManifestFault::Inventory("translation report names unexpected crate `"@ + r.crate_name@ + "`"@))
        } else {
            None
        },
    }
}

/// The first fault among the first `n` report files.
pub open spec fn reports_fault(files: Seq<ReportFile>, n: nat, packages: Seq<Seq<char>>, lock: ToolchainLock) -> Option<
    ManifestFault,
>
    decreases n,
{
    if n == 0 || n > files.len() {
        None
    } else {
        match reports_fault(files, (n - 1) as nat, packages, lock) {
            Some(f) => Some(f),
            None => report_fault(files[n - 1], packages, lock),
        }
    }
}

/// What is wrong with one translated function, given the registered opaque
/// functions, if anything.
pub open spec fn function_fault(f: TranslationFunction, opaque: Seq<Seq<char>>) -> Option<ManifestFault> {
    if !is_safe_symbol(f.rust_name@) {
        Some(ManifestFault::Inventory("invalid translated symbol `"@ + f.rust_name@ + "`"@))
    } else if f.is_local && f.is_opaque && !opaque.contains(f.rust_name@) {
        Some(ManifestFault::Inventory("unregistered opaque local function `"@ + f.rust_name@ + "`"@))
    } else {
        None
    }
}

/// The first fault among the first `n` functions.
pub open spec fn functions_fault(fs: Seq<TranslationFunction>, n: nat, opaque: Seq<Seq<char>>) -> Option<
    ManifestFault,
>
    decreases n,
{
    if n == 0 || n > fs.len() {
        None
    } else {
        match functions_fault(fs, (n - 1) as nat, opaque) {
            Some(f) => Some(f),
            None => function_fault(fs[n - 1], opaque),
        }
    }
}

/// The functions of a parsed report file (none for a file that failed).
pub open spec fn file_functions(file: ReportFile) -> Seq<TranslationFunction> {
    match file.1 {
        Ok(r) => r.functions@,
        Err(_) => Seq::empty(),
    }
}

/// The first function fault among the first `n` report files, report by
/// report.
pub open spec fn files_function_fault(files: Seq<ReportFile>, n: nat, opaque: Seq<Seq<char>>) -> Option<
    ManifestFault,
>
    decreases n,
{
    if n == 0 || n > files.len() {
        None
    } else {
        match files_function_fault(files, (n - 1) as nat, opaque) {
            Some(f) => Some(f),
            None => functions_fault(
                file_functions(files[n - 1]),
                file_functions(files[n - 1]).len(),
                opaque,
            ),
        }
    }
}

/// The local, transparent functions among `fs`, in order.
pub open spec fn local_names_of(fs: Seq<TranslationFunction>) -> Seq<Seq<char>>
    decreases fs.len(),
{
    if fs.len() == 0 {
        Seq::empty()
    } else {
        local_names_of(fs.drop_last()) + if fs.last().is_local && !fs.last().is_opaque {
            seq![fs.last().rust_name@]
        } else {
            Seq::empty()
        }
    }
}

/// The local, transparent functions of all report files, file by file.
pub open spec fn local_names(files: Seq<ReportFile>) -> Seq<Seq<char>>
    decreases files.len(),
{
    if files.len() == 0 {
        Seq::empty()
    } else {
        local_names(files.drop_last()) + local_names_of(file_functions(files.last()))
    }
}

/// Whether some report translates `name` as a local, transparent function.
pub open spec fn translated_locally(files: Seq<ReportFile>, name: Seq<char>) -> bool {
    local_names(files).contains(name)
}

/// What the translation reports yield: the start symbols, or the first
/// rule they break.
pub open spec fn report_inventory_fault(files: Seq<ReportFile>, unit: TranslationUnit, lock: ToolchainLock) -> Option<
    ManifestFault,
> {
    let packages = string_views(unit.packages@);
    let starts = string_views(unit.start_from@);
    if reports_fault(files, files.len(), packages, lock) is Some {
        reports_fault(files, files.len(), packages, lock)
    } else if files.len() != packages.len() {
        Some(
            ManifestFault::Inventory(
                "expected "@ + decimal(packages.len()) + " translation reports, found "@ + decimal(
                    files.len(),
                ),
            ),
        )
    } else if files_function_fault(files, files.len(), string_views(unit.opaque@)) is Some {
        files_function_fault(files, files.len(), string_views(unit.opaque@))
    } else if any_bad(starts, |s: Seq<char>| translated_locally(files, s)) is Some {
        Some(
            ManifestFault::Inventory(
                "start_from symbol `"@ + any_bad(starts, |s: Seq<char>| translated_locally(files, s))->0
                    + "` is absent or opaque in translation reports"@,
            ),
        )
    } else {
        None
    }
}

fn names_package_of(packages: &Vec<String>, crate_name: &str) -> (b: bool)
    ensures
        b == names_package(string_views(packages@), crate_name@),
{
    let ghost ps = string_views(packages@);
    let c = chars_of(crate_name);
    let mut i: usize = 0;
    while i < packages.len()
        invariant
            i <= ps.len(),
            ps == string_views(packages@),
            c@ == crate_name@,
            forall|k: int|
                0 <= k < i ==> !(#[trigger] ps[k] == crate_name@ || crate::aeneas::crate_segment(ps[k])
                    == crate_name@),
        decreases ps.len() - i,
    {
        let p = chars_of(packages[i].as_str());
        let seg = crate::aeneas::crate_segment_of(p.as_slice());
        proof {
            assert(ps[i as int] == p@);
        }
        if crate::inventory::compare_chars(p.as_slice(), c.as_slice()) == 0
            || crate::inventory::compare_chars(seg.as_slice(), c.as_slice()) == 0 {
            return true;
        }
        i = i + 1;
    }
    false
}

proof fn lemma_reports_fault_extends(files: Seq<ReportFile>, packages: Seq<Seq<char>>, lock: ToolchainLock, m: nat, n: nat)
    requires
        m <= n <= files.len(),
    ensures
        reports_fault(files, m, packages, lock) is Some ==> reports_fault(files, n, packages, lock)
            == reports_fault(files, m, packages, lock),
    decreases n - m,
{
    if m < n {
        lemma_reports_fault_extends(files, packages, lock, m, (n - 1) as nat);
    }
}

proof fn lemma_functions_fault_extends(fs: Seq<TranslationFunction>, opaque: Seq<Seq<char>>, m: nat, n: nat)
    requires
        m <= n <= fs.len(),
    ensures
        functions_fault(fs, m, opaque) is Some ==> functions_fault(fs, n, opaque) == functions_fault(
            fs,
            m,
            opaque,
        ),
    decreases n - m,
{
    if m < n {
        lemma_functions_fault_extends(fs, opaque, m, (n - 1) as nat);
    }
}

proof fn lemma_files_function_fault_extends(files: Seq<ReportFile>, opaque: Seq<Seq<char>>, m: nat, n: nat)
    requires
        m <= n <= files.len(),
    ensures
        files_function_fault(files, m, opaque) is Some ==> files_function_fault(files, n, opaque)
            == files_function_fault(files, m, opaque),
    decreases n - m,
{
    if m < n {
        lemma_files_function_fault_extends(files, opaque, m, (n - 1) as nat);
    }
}

/// Reads the translation reports (each generated `translation.json`, in
/// path order, as parsed) against the unit and the toolchain lock: every
/// report parses, was made by the pinned tools and names a configured
/// package; there is one per package; every translated function is a safe
/// symbol and no local function is opaque unless registered; and each
/// start symbol is translated as a local, transparent function. Returns the
/// start symbols.
#[verifier::loop_isolation(false)]
pub fn translation_report_inventory(files: &Vec<ReportFile>, unit: &TranslationUnit, lock: &ToolchainLock) -> (r: Result<
    Vec<String>,
    AdapterError,
>)
    ensures
        match report_inventory_fault(files@, *unit, *lock) {
            None => (r matches Ok(v) && string_views(v@) == string_views(unit.start_from@)),
            Some(f) => (r matches Err(e) && is_manifest_fault(e, f)),
        },
{
    let ghost fv = files@;
    let ghost packages = string_views(unit.packages@);
    let mut i: usize = 0;
    while i < files.len()
        invariant
            i <= fv.len(),
            fv == files@,
            packages == string_views(unit.packages@),
            reports_fault(fv, i as nat, packages, *lock) is None,
        decreases fv.len() - i,
    {
        proof {
            lemma_reports_fault_extends(fv, packages, *lock, (i + 1) as nat, fv.len());
        }
        let (path, outcome) = &files[i];
        match outcome {
            Err(e) => {
                let mut m = path.as_str().to_owned();
                m.append(": ");
                m.append(e.as_str());
                return Err(AdapterError::Inventory(m));
            },
            Ok(report) => {
                if !str_equal(report.aeneas_version.as_str(), lock.aeneas_revision.as_str()) || !str_equal(
                    report.charon_version.as_str(),
                    lock.charon_revision.as_str(),
                ) {
                    let mut m = "normalized translation report `".to_owned();
                    m.append(path.as_str());
                    m.append("` has unpinned tool versions");
                    return Err(AdapterError::Toolchain(m));
                }
                if !names_package_of(&unit.packages, report.crate_name.as_str()) {
                    let mut m = "translation report names unexpected crate `".to_owned();
                    m.append(report.crate_name.as_str());
                    m.append("`");
                    return Err(AdapterError::Inventory(m));
                }
            },
        }
        i = i + 1;
    }
    if files.len() != unit.packages.len() {
        let mut m = "expected ".to_owned();
        push_decimal(&mut m, unit.packages.len() as u64);
        m.append(" translation reports, found ");
        push_decimal(&mut m, files.len() as u64);
        return Err(AdapterError::Inventory(m));
    }
    let opaque = char_lists(&unit.opaque);
    let ghost ov = string_views(unit.opaque@);
    let mut local: Vec<Vec<char>> = Vec::new();
    let mut i: usize = 0;
    while i < files.len()
        invariant
            i <= fv.len(),
            fv == files@,
            views(opaque@) == ov,
            ov == string_views(unit.opaque@),
            files_function_fault(fv, i as nat, ov) is None,
            views(local@) == local_names(fv.take(i as int)),
        decreases fv.len() - i,
    {
        proof {
            lemma_files_function_fault_extends(fv, ov, (i + 1) as nat, fv.len());
            assert(fv.take(i + 1).drop_last() =~= fv.take(i as int));
            assert(fv.take(i + 1).last() == fv[i as int]);
        }
        let ghost before = views(local@);
        let ghost fs = file_functions(fv[i as int]);
        match &files[i].1 {
            Err(_) => {
                proof {
                    assert(local_names_of(fs) =~= Seq::<Seq<char>>::empty());
                    assert(views(local@) =~= local_names(fv.take(i + 1)));
                }
            },
            Ok(report) => {
                let mut j: usize = 0;
                while j < report.functions.len()
                    invariant
                        j <= fs.len(),
                        fs == report.functions@,
                        views(opaque@) == ov,
                        functions_fault(fs, j as nat, ov) is None,
                        views(local@) == before + local_names_of(fs.take(j as int)),
                    decreases fs.len() - j,
                {
                    proof {
                        lemma_functions_fault_extends(fs, ov, (j + 1) as nat, fs.len());
                        assert(fs.take(j + 1).drop_last() =~= fs.take(j as int));
                        assert(fs.take(j + 1).last() == fs[j as int]);
                    }
                    let f = &report.functions[j];
                    if !safe_symbol(f.rust_name.as_str()) {
                        let mut m = "invalid translated symbol `".to_owned();
                        m.append(f.rust_name.as_str());
                        m.append("`");
                        return Err(AdapterError::Inventory(m));
                    }
                    let name = chars_of(f.rust_name.as_str());
                    if f.is_local && f.is_opaque && !crate::inventory::contains_chars(&opaque, name.as_slice()) {
                        let mut m = "unregistered opaque local function `".to_owned();
                        m.append(f.rust_name.as_str());
                        m.append("`");
                        return Err(AdapterError::Inventory(m));
                    }
                    let ghost mid = views(local@);
                    if f.is_local && !f.is_opaque {
                        local.push(name);
                        proof {
                            assert(views(local@) =~= mid.push(fs[j as int].rust_name@));
                        }
                    }
                    proof {
                        assert(views(local@) =~= before + local_names_of(fs.take(j + 1)));
                    }
                    j = j + 1;
                }
                proof {
                    assert(fs.take(fs.len() as int) =~= fs);
                }
            },
        }
        i = i + 1;
    }
    proof {
        assert(fv.take(fv.len() as int) =~= fv);
    }
    let ghost starts = string_views(unit.start_from@);
    let mut k: usize = 0;
    while k < unit.start_from.len()
        invariant
            k <= starts.len(),
            starts == string_views(unit.start_from@),
            views(local@) == local_names(fv),
            first_bad(starts, k as nat, |s: Seq<char>| translated_locally(fv, s)) is None,
        decreases starts.len() - k,
    {
        proof {
            assert(starts[k as int] == unit.start_from@[k as int]@);
            lemma_first_bad_extends(starts, |s: Seq<char>| translated_locally(fv, s), (k + 1) as nat, starts.len());
        }
        let s = chars_of(unit.start_from[k].as_str());
        if !crate::inventory::contains_chars(&local, s.as_slice()) {
            let mut m = "start_from symbol `".to_owned();
            m.append(unit.start_from[k].as_str());
            m.append("` is absent or opaque in translation reports");
            return Err(AdapterError::Inventory(m));
        }
        k = k + 1;
    }
    let mut out: Vec<String> = Vec::new();
    let mut k: usize = 0;
    while k < unit.start_from.len()
        invariant
            k <= unit.start_from@.len(),
            string_views(out@) == string_views(unit.start_from@).take(k as int),
        decreases unit.start_from@.len() - k,
    {
        let ghost before = string_views(out@);
        out.push(unit.start_from[k].as_str().to_owned());
        proof {
            assert(string_views(unit.start_from@).take(k + 1) =~= string_views(unit.start_from@).take(k as int).push(
                unit.start_from@[k as int]@,
            ));
            assert(string_views(out@) =~= before.push(unit.start_from@[k as int]@));
        }
        k = k + 1;
    }
    proof {
        assert(string_views(unit.start_from@).take(unit.start_from@.len() as int) =~= string_views(unit.start_from@));
    }
    Ok(out)
}

} // verus!
