//! What a translation must declare about the Lean it generates: external
//! bridges kept outside the generated tree and pinned by digest, template
//! axiom files inside it, and the inventory of upstream warnings.
use vstd::prelude::*;
use vstd::string::*;
use crate::aeneas::{framed, validate_relative_path, AdapterError, TranslationUnit};
use crate::digest::{sha256_bytes, sha256_text};
use crate::files::FileMap;
use crate::lean::is_blank;
use crate::names::{is_safe_symbol, is_sha256_text, safe_symbol, valid_digest};
use crate::paths::{components, components_of, components_prefix, is_relative_path, parts_prefix};
use crate::inventory::{
    compare_chars, contains_chars, lemma_lt_asymmetric, lemma_lt_total, lemma_lt_transitive, seq_lt,
};
use crate::lean_scan::{lean_token_locations, token_lines};
use crate::text::{
    chars_of, decimal, ends_with, extend_chars, join, join_of, matches_at, push_decimal, str_equal,
    string_of, string_views, trim, utf8_error_text, utf8_text, views,
};
use crate::warnings::{
    key_view, key_views, keys_debug, keys_missing, keys_sorted, render_keys, sorted_keys, Key,
    KeyView,
};
use vstd::utf8::{encode_utf8, valid_utf8};

verus! {

/// A generated file that holds template axioms on purpose, with how many.
#[derive(Clone, Debug, PartialEq, Eq)]
pub struct TemplateAxiom {
    pub file: String,
    pub count: usize,
    pub compiled: bool,
}

/// One upstream warning that the generated Lean is known to carry.
#[derive(Clone, Debug, PartialEq, Eq)]
pub struct WarningInventory {
    pub artifact: String,
    pub line: usize,
    pub kind: String,
}

/// A hand-written Lean file that generated code relies on, pinned by the
/// digest of its reviewed bytes.
#[derive(Clone, Debug, PartialEq, Eq)]
pub struct ExternalBridge {
    pub file: String,
    pub module: Option<String>,
    pub reviewed_sha256: String,
}

/// A failure of these declarations, as plain values; `Read` is the failure
/// met when reading a bridge file.
pub enum BoundaryFault {
    Unit(Seq<char>),
    UnsafePath(Seq<char>),
    Generated(Seq<char>),
    Read(AdapterError),
}

/// The error `e` is the fault `f`.
pub open spec fn is_boundary_fault(e: AdapterError, f: BoundaryFault) -> bool {
    match f {
        BoundaryFault::Unit(m) => e matches AdapterError::Unit(x) && x@ == m,
        BoundaryFault::UnsafePath(m) => e matches AdapterError::UnsafePath(x) && x@ == m,
        BoundaryFault::Generated(m) => e matches AdapterError::Generated(x) && x@ == m,
        BoundaryFault::Read(x) => e == x,
    }
}

/// The first fault of `items[..n]`, where `step(items, i)` is the fault of
/// item `i` given those before it.
pub open spec fn first_fault<T>(
    items: Seq<T>,
    n: nat,
    step: spec_fn(Seq<T>, int) -> Option<BoundaryFault>,
) -> Option<BoundaryFault>
    decreases n,
{
    if n == 0 {
        None
    } else {
        match first_fault(items, (n - 1) as nat, step) {
            Some(f) => Some(f),
            None => step(items, n - 1),
        }
    }
}

/// A fault found in a prefix is the fault of every longer prefix.
pub proof fn lemma_first_fault_extends<T>(
    items: Seq<T>,
    step: spec_fn(Seq<T>, int) -> Option<BoundaryFault>,
    m: nat,
    n: nat,
)
    requires
        m <= n,
        first_fault(items, m, step) is Some,
    ensures
        first_fault(items, n, step) == first_fault(items, m, step),
    decreases n - m,
{
    if m < n {
        lemma_first_fault_extends(items, step, m, (n - 1) as nat);
    }
}

/// Where the prefix before `k` is sound and item `k` is not, that item's
/// fault is the first.
pub proof fn lemma_fault_at<T>(items: Seq<T>, step: spec_fn(Seq<T>, int) -> Option<BoundaryFault>, k: nat)
    requires
        k < items.len(),
        first_fault(items, k, step) is None,
        step(items, k as int) is Some,
    ensures
        first_fault(items, items.len(), step) == step(items, k as int),
{
    assert(first_fault(items, k + 1, step) == step(items, k as int));
    lemma_first_fault_extends(items, step, k + 1, items.len());
}

/// The fault of one bridge on its own: its path, its place outside the
/// generated tree, its digest's spelling, then the bytes read for it.
pub open spec fn bridge_fault(
    generated_dir: Seq<char>,
    bridge: ExternalBridge,
    read: Result<Vec<u8>, AdapterError>,
) -> Option<BoundaryFault> {
    let f = bridge.file@;
    if !is_relative_path(f) {
        Some(BoundaryFault::UnsafePath(f))
    } else if components_prefix(generated_dir, f) {
        Some(BoundaryFault::Unit("external bridge `"@ + f + "` must remain outside generated_dir"@))
    } else if !is_sha256_text(bridge.reviewed_sha256@) {
        Some(BoundaryFault::Unit("bridge `"@ + f + "` has an invalid digest"@))
    } else {
        match read {
            Err(e) => Some(BoundaryFault::Read(e)),
            Ok(bytes) => if sha256_text(bytes@) == bridge.reviewed_sha256@ {
                None
            } else {
                Some(
                    BoundaryFault::Generated(
                        "bridge `"@ + f + "` digest mismatch: expected "@ + bridge.reviewed_sha256@
                            + ", found "@ + sha256_text(bytes@),
                    ),
                )
            },
        }
    }
}

/// Checks one bridge against the generated tree and the bytes read for its
/// file.
pub fn validate_bridge(
    generated_dir: &str,
    bridge: &ExternalBridge,
    read: Result<Vec<u8>, AdapterError>,
) -> (r: Result<(), AdapterError>)
    ensures
        match bridge_fault(generated_dir@, *bridge, read) {
            None => r is Ok,
            Some(f) => r matches Err(e) && is_boundary_fault(e, f),
        },
{
    validate_relative_path(bridge.file.as_str())?;
    if contained(generated_dir, bridge.file.as_str()) {
        return Err(
            AdapterError::Unit(
                framed("external bridge `", bridge.file.as_str(), "` must remain outside generated_dir"),
            ),
        );
    }
    if !valid_digest(bridge.reviewed_sha256.as_str()) {
        return Err(AdapterError::Unit(framed("bridge `", bridge.file.as_str(), "` has an invalid digest")));
    }
    match read {
        Err(e) => Err(e),
        Ok(bytes) => {
            let actual = sha256_bytes(bytes.as_slice());
            if str_equal(actual.as_str(), bridge.reviewed_sha256.as_str()) {
                Ok(())
            } else {
                let mut m = framed("bridge `", bridge.file.as_str(), "` digest mismatch: expected ");
                m.append(bridge.reviewed_sha256.as_str());
                m.append(", found ");
                m.append(actual.as_str());
                Err(AdapterError::Generated(m))
            }
        },
    }
}

/// Whether the components of `parent` begin those of `child`.
fn contained(parent: &str, child: &str) -> (b: bool)
    ensures
        b == components_prefix(parent@, child@),
{
    let p = chars_of(parent);
    let c = chars_of(child);
    let pc = components_of(p.as_slice());
    let cc = components_of(c.as_slice());
    parts_prefix(&pc, &cc)
}

/// Whether bridge `b` names module `m`.
pub open spec fn names_module(b: ExternalBridge, m: Seq<char>) -> bool {
    b.module matches Some(x) && x@ == m
}

/// The fault of bridge `i` given those before it: its own fault, then a
/// file named twice, then a module that is not a safe symbol or is named
/// twice.
pub open spec fn bridge_step(
    generated_dir: Seq<char>,
    bridges: Seq<ExternalBridge>,
    reads: Seq<Result<Vec<u8>, AdapterError>>,
    i: int,
) -> Option<BoundaryFault> {
    let b = bridges[i];
    match bridge_fault(generated_dir, b, reads[i]) {
        Some(f) => Some(f),
        None => if exists|j: int| 0 <= j < i && #[trigger] bridges[j].file@ == b.file@ {
            Some(BoundaryFault::Unit("duplicate external bridge `"@ + b.file@ + "`"@))
        } else {
            match b.module {
                Some(m) => if !is_safe_symbol(m@) || exists|j: int|
                    0 <= j < i && #[trigger] names_module(bridges[j], m@) {
                    Some(BoundaryFault::Unit("invalid or duplicate bridge module `"@ + m@ + "`"@))
                } else {
                    None
                },
                None => None,
            }
        },
    }
}

/// The bridge rule as a step.
pub open spec fn bridge_steps(
    generated_dir: Seq<char>,
    reads: Seq<Result<Vec<u8>, AdapterError>>,
) -> spec_fn(Seq<ExternalBridge>, int) -> Option<BoundaryFault> {
    |bridges: Seq<ExternalBridge>, i: int| bridge_step(generated_dir, bridges, reads, i)
}

/// The fault of template declaration `t`: its path, then its place inside
/// the generated tree and that it is not compiled.
pub open spec fn template_fault(generated_dir: Seq<char>, t: TemplateAxiom) -> Option<BoundaryFault> {
    if !is_relative_path(t.file@) {
        Some(BoundaryFault::UnsafePath(t.file@))
    } else if !components_prefix(generated_dir, t.file@) || t.compiled {
        Some(
            BoundaryFault::Unit(
                "template `"@ + t.file@ + "` must be uncompiled and inside generated_dir"@,
            ),
        )
    } else {
        None
    }
}

/// The fault of template `i` given those before it: its own, then a file
/// named twice.
pub open spec fn template_step(
    generated_dir: Seq<char>,
    templates: Seq<TemplateAxiom>,
    i: int,
) -> Option<BoundaryFault> {
    match template_fault(generated_dir, templates[i]) {
        Some(f) => Some(f),
        None => if exists|j: int| 0 <= j < i && #[trigger] templates[j].file@ == templates[i].file@ {
            Some(BoundaryFault::Unit("duplicate template axiom file `"@ + templates[i].file@ + "`"@))
        } else {
            None
        },
    }
}

/// The template rule as a step.
pub open spec fn template_steps(generated_dir: Seq<char>) -> spec_fn(Seq<TemplateAxiom>, int) -> Option<
    BoundaryFault,
> {
    |templates: Seq<TemplateAxiom>, i: int| template_step(generated_dir, templates, i)
}

/// The same warning entry: artifact, line and kind.
pub open spec fn same_warning(a: WarningInventory, b: WarningInventory) -> bool {
    a.artifact@ == b.artifact@ && a.line == b.line && a.kind@ == b.kind@
}

/// The fault of warning `i` given those before it: its path, then its
/// place inside the generated tree, a zero line or a blank kind, then an
/// entry given twice.
pub open spec fn warning_step(
    generated_dir: Seq<char>,
    warnings: Seq<WarningInventory>,
    i: int,
) -> Option<BoundaryFault> {
    let w = warnings[i];
    if !is_relative_path(w.artifact@) {
        Some(BoundaryFault::UnsafePath(w.artifact@))
    } else if !components_prefix(generated_dir, w.artifact@) || w.line == 0 || trim(w.kind@).len() == 0 {
        Some(
            BoundaryFault::Unit(
                "warning `"@ + w.artifact@ + "` is outside generated_dir or malformed"@,
            ),
        )
    } else if exists|j: int| 0 <= j < i && same_warning(#[trigger] warnings[j], w) {
        Some(BoundaryFault::Unit("duplicate warning inventory entry"@))
    } else {
        None
    }
}

/// The warning rule as a step.
pub open spec fn warning_steps(generated_dir: Seq<char>) -> spec_fn(Seq<WarningInventory>, int) -> Option<
    BoundaryFault,
> {
    |warnings: Seq<WarningInventory>, i: int| warning_step(generated_dir, warnings, i)
}

/// The first fault of a translation's boundary declarations: the generated
/// directory's path, then the bridges, the templates and the warnings, each
/// in order.
pub open spec fn boundaries_fault(unit: TranslationUnit, reads: Seq<Result<Vec<u8>, AdapterError>>) -> Option<
    BoundaryFault,
> {
    let g = unit.generated_dir@;
    if !is_relative_path(g) {
        Some(BoundaryFault::UnsafePath(g))
    } else {
        match first_fault(unit.external_bridges@, unit.external_bridges@.len(), bridge_steps(g, reads)) {
            Some(f) => Some(f),
            None => match first_fault(unit.template_axioms@, unit.template_axioms@.len(), template_steps(g)) {
                Some(f) => Some(f),
                None => first_fault(unit.warning_inventory@, unit.warning_inventory@.len(), warning_steps(g)),
            },
        }
    }
}

/// Checks one template declaration against the generated tree.
pub fn validate_template_declaration(generated_dir: &str, template: &TemplateAxiom) -> (r: Result<
    (),
    AdapterError,
>)
    ensures
        match template_fault(generated_dir@, *template) {
            None => r is Ok,
            Some(f) => r matches Err(e) && is_boundary_fault(e, f),
        },
{
    validate_relative_path(template.file.as_str())?;
    if !contained(generated_dir, template.file.as_str()) || template.compiled {
        return Err(
            AdapterError::Unit(
                framed("template `", template.file.as_str(), "` must be uncompiled and inside generated_dir"),
            ),
        );
    }
    Ok(())
}

/// Checks the bridges, template declarations and warning inventory of a
/// translation; `reads` holds, for each bridge in order, its file's bytes
/// or the failure met reading it.
#[verifier::loop_isolation(false)]
pub fn validate_external_boundaries(unit: &TranslationUnit, reads: Vec<Result<Vec<u8>, AdapterError>>) -> (r:
    Result<(), AdapterError>)
    requires
        reads@.len() == unit.external_bridges@.len(),
    ensures
        match boundaries_fault(*unit, reads@) {
            None => r is Ok,
            Some(f) => r matches Err(e) && is_boundary_fault(e, f),
        },
{
    let g = unit.generated_dir.as_str();
    validate_relative_path(g)?;
    let ghost all = reads@;
    let ghost bs = unit.external_bridges@;
    let mut reads = reads;
    let mut k: usize = 0;
    while k < unit.external_bridges.len()
        invariant
            bs == unit.external_bridges@,
            k <= bs.len(),
            reads@ == all.skip(k as int),
            all.len() == bs.len(),
            first_fault(bs, k as nat, bridge_steps(g@, all)) is None,
        decreases bs.len() - k,
    {
        let read = reads.remove(0);
        let b = &unit.external_bridges[k];
        proof {
            assert(read == all[k as int]);
            assert(reads@ =~= all.skip(k + 1));
        }
        let checked = validate_bridge(g, b, read);
        proof {
            assert(g@ == unit.generated_dir@);
            assert(bridge_steps(g@, all)(bs, k as int) == bridge_step(g@, bs, all, k as int));
        }
        if let Err(e) = checked {
            proof {
                lemma_fault_at(bs, bridge_steps(g@, all), k as nat);
            }
            return Err(e);
        }
        let mut j: usize = 0;
        while j < k
            invariant
                bs == unit.external_bridges@,
                k < bs.len(),
                j <= k,
                b == bs[k as int],
                forall|i: int| 0 <= i < j ==> #[trigger] bs[i].file@ != b.file@,
            decreases k - j,
        {
            if str_equal(unit.external_bridges[j].file.as_str(), b.file.as_str()) {
                proof {
                    assert(bs[j as int].file@ == b.file@);
                    lemma_fault_at(bs, bridge_steps(g@, all), k as nat);
                }
                return Err(AdapterError::Unit(framed("duplicate external bridge `", b.file.as_str(), "`")));
            }
            j = j + 1;
        }
        if let Some(m) = &b.module {
            let mut bad = !safe_symbol(m.as_str());
            let mut j: usize = 0;
            while j < k && !bad
                invariant
                    bs == unit.external_bridges@,
                    k < bs.len(),
                    j <= k,
                    b == bs[k as int],
                    b.module == Some(*m),
                    !bad ==> is_safe_symbol(m@),
                    !bad ==> forall|i: int| 0 <= i < j ==> !#[trigger] names_module(bs[i], m@),
                    bad ==> (!is_safe_symbol(m@) || exists|i: int|
                        0 <= i < k && #[trigger] names_module(bs[i], m@)),
                decreases k - j,
            {
                if let Some(other) = &unit.external_bridges[j].module {
                    if str_equal(other.as_str(), m.as_str()) {
                        bad = true;
                        proof {
                            assert(names_module(bs[j as int], m@));
                        }
                    }
                }
                j = j + 1;
            }
            if bad {
                proof {
                    lemma_fault_at(bs, bridge_steps(g@, all), k as nat);
                }
                return Err(AdapterError::Unit(framed("invalid or duplicate bridge module `", m.as_str(), "`")));
            }
        }
        k = k + 1;
    }
    let ts = &unit.template_axioms;
    let mut k: usize = 0;
    while k < ts.len()
        invariant
            k <= ts@.len(),
            first_fault(bs, bs.len(), bridge_steps(g@, all)) is None,
            first_fault(ts@, k as nat, template_steps(g@)) is None,
        decreases ts@.len() - k,
    {
        let t = &ts[k];
        let checked = validate_template_declaration(g, t);
        if let Err(e) = checked {
            proof {
                lemma_fault_at(ts@, template_steps(g@), k as nat);
            }
            return Err(e);
        }
        let mut j: usize = 0;
        while j < k
            invariant
                k < ts@.len(),
                j <= k,
                t == ts@[k as int],
                forall|i: int| 0 <= i < j ==> #[trigger] ts@[i].file@ != t.file@,
            decreases k - j,
        {
            if str_equal(ts[j].file.as_str(), t.file.as_str()) {
                proof {
                    assert(ts@[j as int].file@ == t.file@);
                    lemma_fault_at(ts@, template_steps(g@), k as nat);
                }
                return Err(AdapterError::Unit(framed("duplicate template axiom file `", t.file.as_str(), "`")));
            }
            j = j + 1;
        }
        k = k + 1;
    }
    let ws = &unit.warning_inventory;
    let mut k: usize = 0;
    while k < ws.len()
        invariant
            k <= ws@.len(),
            first_fault(bs, bs.len(), bridge_steps(g@, all)) is None,
            first_fault(ts@, ts@.len(), template_steps(g@)) is None,
            first_fault(ws@, k as nat, warning_steps(g@)) is None,
        decreases ws@.len() - k,
    {
        let w = &ws[k];
        if let Err(e) = validate_relative_path(w.artifact.as_str()) {
            proof {
                lemma_fault_at(ws@, warning_steps(g@), k as nat);
            }
            return Err(e);
        }
        if !contained(g, w.artifact.as_str()) || w.line == 0 || is_blank(w.kind.as_str()) {
            proof {
                lemma_fault_at(ws@, warning_steps(g@), k as nat);
            }
            return Err(
                AdapterError::Unit(
                    framed("warning `", w.artifact.as_str(), "` is outside generated_dir or malformed"),
                ),
            );
        }
        let mut j: usize = 0;
        while j < k
            invariant
                k < ws@.len(),
                j <= k,
                w == ws@[k as int],
                forall|i: int| 0 <= i < j ==> !same_warning(#[trigger] ws@[i], *w),
            decreases k - j,
        {
            let o = &ws[j];
            if o.line == w.line && str_equal(o.artifact.as_str(), w.artifact.as_str()) && str_equal(
                o.kind.as_str(),
                w.kind.as_str(),
            ) {
                proof {
                    assert(same_warning(ws@[j as int], *w));
                    lemma_fault_at(ws@, warning_steps(g@), k as nat);
                }
                return Err(AdapterError::Unit("duplicate warning inventory entry".to_owned()));
            }
            j = j + 1;
        }
        k = k + 1;
    }
    Ok(())
}

/// The path of `file` below the generated tree: its components after those
/// of `generated_dir`, joined by `/`.
pub open spec fn local_path(generated_dir: Seq<char>, file: Seq<char>) -> Seq<char> {
    join(components(file).skip(components(generated_dir).len() as int), "/"@)
}

/// A generated Lean source file.
pub open spec fn is_lean_file(path: Seq<char>) -> bool {
    ends_with(path, ".lean"@)
}

/// The axiom count declared for a generated file; where two templates name
/// it, the later one.
pub open spec fn template_count(generated_dir: Seq<char>, templates: Seq<TemplateAxiom>, path: Seq<char>) -> Option<
    usize,
>
    decreases templates.len(),
{
    if templates.len() == 0 {
        None
    } else if local_path(generated_dir, templates.last().file@) == path {
        Some(templates.last().count)
    } else {
        template_count(generated_dir, templates.drop_last(), path)
    }
}

/// The lines of `axiom` declarations in a Lean source.
pub open spec fn axiom_count(bytes: Seq<u8>) -> nat {
    token_lines(bytes, encode_utf8("axiom"@)).len()
}

/// The fault of one generated file: a Lean file that is not UTF-8, or whose
/// axiom count differs from what its template declares (none where no
/// template names it).
pub open spec fn file_fault(
    generated_dir: Seq<char>,
    templates: Seq<TemplateAxiom>,
    path: Seq<char>,
    bytes: Seq<u8>,
) -> Option<Seq<char>> {
    if !is_lean_file(path) {
        None
    } else if !valid_utf8(bytes) {
        Some("generated Lean `"@ + path + "` is not UTF-8: "@ + utf8_error_text(bytes))
    } else {
        let n = axiom_count(bytes);
        match template_count(generated_dir, templates, path) {
            Some(e) => if e == n {
                None
            } else {
                Some(
                    "template `"@ + path + "` axiom count is "@ + decimal(n) + ", expected "@ + decimal(
                        e as nat,
                    ),
                )
            },
            None => if n == 0 {
                None
            } else {
                Some(
                    "generated Lean `"@ + path + "` contains "@ + decimal(n)
                        + " unregistered axiom declarations"@,
                )
            },
        }
    }
}

/// The generated-file rule as a step.
pub open spec fn file_steps(generated_dir: Seq<char>, templates: Seq<TemplateAxiom>) -> spec_fn(
    Seq<(Seq<char>, Seq<u8>)>,
    int,
) -> Option<BoundaryFault> {
    |files: Seq<(Seq<char>, Seq<u8>)>, i: int|
        match file_fault(generated_dir, templates, files[i].0, files[i].1) {
            Some(m) => Some(BoundaryFault::Generated(m)),
            None => None,
        }
}

/// A declared template path that no generated file has.
pub open spec fn ungenerated(
    generated_dir: Seq<char>,
    templates: Seq<TemplateAxiom>,
    files: Seq<(Seq<char>, Seq<u8>)>,
    t: Seq<char>,
) -> bool {
    &&& exists|i: int| 0 <= i < templates.len() && #[trigger] local_path(generated_dir, templates[i].file@) == t
    &&& !exists|k: int| 0 <= k < files.len() && #[trigger] files[k].0 == t
}

/// The least declared template path that no generated file has.
pub open spec fn least_ungenerated(
    generated_dir: Seq<char>,
    templates: Seq<TemplateAxiom>,
    files: Seq<(Seq<char>, Seq<u8>)>,
) -> Seq<char> {
    choose|m: Seq<char>|
        ungenerated(generated_dir, templates, files, m) && forall|t: Seq<char>|
            #[trigger] ungenerated(generated_dir, templates, files, t) ==> !seq_lt(t, m)
}

/// The first fault of the generated files against the declarations: the
/// generated directory's path, each file in order, then a declared template
/// that was not generated.
pub open spec fn inventory_fault(unit: TranslationUnit, files: Seq<(Seq<char>, Seq<u8>)>) -> Option<BoundaryFault> {
    let g = unit.generated_dir@;
    let ts = unit.template_axioms@;
    if !is_relative_path(g) {
        Some(BoundaryFault::UnsafePath(g))
    } else {
        match first_fault(files, files.len(), file_steps(g, ts)) {
            Some(f) => Some(f),
            None => if exists|t: Seq<char>| ungenerated(g, ts, files, t) {
                Some(
                    BoundaryFault::Generated(
                        "declared template `"@ + least_ungenerated(g, ts, files) + "` was not generated"@,
                    ),
                )
            } else {
                None
            },
        }
    }
}

/// The warning keys that the declarations expect.
pub open spec fn expected_keys(generated_dir: Seq<char>, warnings: Seq<WarningInventory>) -> Seq<KeyView> {
    warnings.map_values(
        |w: WarningInventory| (local_path(generated_dir, w.artifact@), w.line as int, w.kind@),
    )
}

/// One key for each line, with the file and kind given.
pub open spec fn line_keys(path: Seq<char>, lines: Seq<int>, kind: Seq<char>) -> Seq<KeyView> {
    lines.map_values(|l: int| (path, l, kind))
}

/// The warnings a generated file carries: a Lean file's `sorry` and
/// `sorryAx` tokens, by line.
pub open spec fn file_keys(path: Seq<char>, bytes: Seq<u8>) -> Seq<KeyView> {
    if !is_lean_file(path) {
        Seq::empty()
    } else {
        line_keys(path, token_lines(bytes, encode_utf8("sorry"@)), "upstream-sorry"@) + line_keys(
            path,
            token_lines(bytes, encode_utf8("sorryAx"@)),
            "upstream-sorry-ax"@,
        )
    }
}

/// The warnings the first `n` generated files carry.
pub open spec fn found_keys(files: Seq<(Seq<char>, Seq<u8>)>, n: nat) -> Seq<KeyView>
    decreases n,
{
    if n == 0 || n > files.len() {
        Seq::empty()
    } else {
        found_keys(files, (n - 1) as nat) + file_keys(files[n - 1].0, files[n - 1].1)
    }
}

/// The message for a warning inventory that differs from what was found.
pub open spec fn warning_mismatch(missing: Seq<KeyView>, extra: Seq<KeyView>) -> Seq<char> {
    "warning inventory mismatch; missing="@ + keys_debug(missing) + ", extra="@ + keys_debug(extra)
}

/// The same keys, each counted once.
pub open spec fn same_keys(a: Seq<KeyView>, b: Seq<KeyView>) -> bool {
    forall|x: KeyView| a.contains(x) <==> b.contains(x)
}

/// The keys of `a` that `b` lacks, each once, in increasing order.
pub open spec fn keys_without(m: Seq<KeyView>, a: Seq<KeyView>, b: Seq<KeyView>) -> bool {
    keys_sorted(m) && forall|x: KeyView| #[trigger] m.contains(x) <==> (a.contains(x) && !b.contains(x))
}

/// The declared path of `file` below the generated tree.
fn local_of(generated_parts: usize, file: &str) -> (out: Vec<char>)
    requires
        generated_parts <= components(file@).len(),
    ensures
        out@ == join(components(file@).skip(generated_parts as int), "/"@),
{
    let c = chars_of(file);
    let parts = components_of(c.as_slice());
    let mut rest: Vec<Vec<char>> = Vec::new();
    let mut i: usize = generated_parts;
    while i < parts.len()
        invariant
            generated_parts <= i <= parts@.len(),
            views(parts@) == components(file@),
            views(rest@) == views(parts@).subrange(generated_parts as int, i as int),
        decreases parts@.len() - i,
    {
        let mut copy: Vec<char> = Vec::new();
        extend_chars(&mut copy, parts[i].as_slice());
        let ghost before = views(rest@);
        rest.push(copy);
        proof {
            assert(views(rest@) =~= before.push(parts@[i as int]@));
            assert(views(parts@).subrange(generated_parts as int, i + 1) =~= views(parts@).subrange(
                generated_parts as int,
                i as int,
            ).push(views(parts@)[i as int]));
        }
        i = i + 1;
    }
    proof {
        assert(views(parts@).subrange(generated_parts as int, parts@.len() as int) =~= components(file@).skip(
            generated_parts as int,
        ));
    }
    let slash = chars_of("/");
    join_of(&rest, slash.as_slice())
}

/// Whether a path names a Lean source.
fn lean_path(path: &[char]) -> (b: bool)
    ensures
        b == is_lean_file(path@),
{
    let suffix = chars_of(".lean");
    if path.len() < suffix.len() {
        return false;
    }
    matches_at(path, suffix.as_slice(), path.len() - suffix.len())
}

/// The count the last template naming `path` declares.
fn declared_count(
    locals: &Vec<Vec<char>>,
    templates: &Vec<TemplateAxiom>,
    path: &[char],
    Ghost(generated_dir): Ghost<Seq<char>>,
) -> (r: Option<usize>)
    requires
        locals@.len() == templates@.len(),
        forall|i: int| 0 <= i < locals@.len() ==> #[trigger] locals@[i]@ == local_path(generated_dir, templates@[i].file@),
    ensures
        r == template_count(generated_dir, templates@, path@),
{
    let mut r: Option<usize> = None;
    let mut i: usize = 0;
    while i < templates.len()
        invariant
            i <= templates@.len(),
            locals@.len() == templates@.len(),
            forall|j: int| 0 <= j < locals@.len() ==> #[trigger] locals@[j]@ == local_path(generated_dir, templates@[j].file@),
            r == template_count(generated_dir, templates@.take(i as int), path@),
        decreases templates@.len() - i,
    {
        proof {
            let t = templates@.take(i + 1);
            assert(t.drop_last() =~= templates@.take(i as int));
            assert(t.last() == templates@[i as int]);
            assert(locals@[i as int]@ == local_path(generated_dir, templates@[i as int].file@));
        }
        if compare_chars(locals[i].as_slice(), path) == 0 {
            r = Some(templates[i].count);
        }
        i = i + 1;
    }
    proof {
        assert(templates@.take(templates@.len() as int) =~= templates@);
    }
    r
}

/// Adds one key for each line.
fn push_line_keys(out: &mut Vec<Key>, path: &[char], lines: &Vec<usize>, kind: &str, Ghost(spec_lines): Ghost<Seq<int>>)
    requires
        lines@.len() == spec_lines.len(),
        forall|k: int| 0 <= k < lines@.len() ==> lines@[k] as int == #[trigger] spec_lines[k],
    ensures
        key_views(final(out)@) == key_views(old(out)@) + line_keys(path@, spec_lines, kind@),
{
    let ghost start = key_views(out@);
    let mut i: usize = 0;
    while i < lines.len()
        invariant
            i <= lines@.len(),
            lines@.len() == spec_lines.len(),
            forall|k: int| 0 <= k < lines@.len() ==> lines@[k] as int == #[trigger] spec_lines[k],
            key_views(out@) == start + line_keys(path@, spec_lines.take(i as int), kind@),
        decreases lines@.len() - i,
    {
        let mut file: Vec<char> = Vec::new();
        extend_chars(&mut file, path);
        let k: Key = (file, lines[i], chars_of(kind));
        let ghost before = key_views(out@);
        out.push(k);
        proof {
            assert(key_views(out@) =~= before.push(key_view(k)));
            assert(spec_lines.take(i + 1) =~= spec_lines.take(i as int).push(spec_lines[i as int]));
            assert(line_keys(path@, spec_lines.take(i + 1), kind@) =~= line_keys(
                path@,
                spec_lines.take(i as int),
                kind@,
            ).push((path@, spec_lines[i as int], kind@)));
        }
        i = i + 1;
    }
    proof {
        assert(spec_lines.take(spec_lines.len() as int) =~= spec_lines);
    }
}

/// Audits one generated file and, where it passes, adds the warnings it
/// carries.
fn audit_file(
    path: &[char],
    bytes: &[u8],
    locals: &Vec<Vec<char>>,
    templates: &Vec<TemplateAxiom>,
    found: &mut Vec<Key>,
    Ghost(generated_dir): Ghost<Seq<char>>,
) -> (r: Result<(), AdapterError>)
    requires
        locals@.len() == templates@.len(),
        forall|i: int| 0 <= i < locals@.len() ==> #[trigger] locals@[i]@ == local_path(generated_dir, templates@[i].file@),
    ensures
        match file_fault(generated_dir, templates@, path@, bytes@) {
            Some(m) => r matches Err(e) && e matches AdapterError::Generated(x) && x@ == m,
            None => r is Ok && key_views(final(found)@) == key_views(old(found)@) + file_keys(path@, bytes@),
        },
{
    let p = path;
    let name = string_of(path);
    if !lean_path(p) {
        proof {
            assert(key_views(found@) =~= key_views(found@) + file_keys(path@, bytes@));
        }
        return Ok(());
    }
    let text = match utf8_text(bytes) {
        Err(e) => {
            let mut m = framed("generated Lean `", name.as_str(), "` is not UTF-8: ");
            m.append(e.as_str());
            return Err(AdapterError::Generated(m));
        },
        Ok(text) => text,
    };
    let t = text.as_str();
    proof {
        vstd::utf8::decode_utf8_encode_utf8(bytes@);
        assert(t.spec_bytes() == encode_utf8(t@));
        assert("axiom".spec_bytes() == encode_utf8("axiom"@));
        assert("sorry".spec_bytes() == encode_utf8("sorry"@));
        assert("sorryAx".spec_bytes() == encode_utf8("sorryAx"@));
    }
    let axioms = lean_token_locations(t, "axiom");
    let n = axioms.len();
    match declared_count(locals, templates, p, Ghost(generated_dir)) {
        Some(e) => {
            if e != n {
                let mut m = framed("template `", name.as_str(), "` axiom count is ");
                push_decimal(&mut m, n as u64);
                m.append(", expected ");
                push_decimal(&mut m, e as u64);
                return Err(AdapterError::Generated(m));
            }
        },
        None => {
            if n != 0 {
                let mut m = framed("generated Lean `", name.as_str(), "` contains ");
                push_decimal(&mut m, n as u64);
                m.append(" unregistered axiom declarations");
                return Err(AdapterError::Generated(m));
            }
        },
    }
    let ghost start = key_views(found@);
    let sorry = lean_token_locations(t, "sorry");
    push_line_keys(found, p, &sorry, "upstream-sorry", Ghost(token_lines(bytes@, encode_utf8("sorry"@))));
    let sorry_ax = lean_token_locations(t, "sorryAx");
    push_line_keys(
        found,
        p,
        &sorry_ax,
        "upstream-sorry-ax",
        Ghost(token_lines(bytes@, encode_utf8("sorryAx"@))),
    );
    proof {
        assert(key_views(found@) =~= start + file_keys(path@, bytes@));
    }
    Ok(())
}

/// Audits the generated files in path order; where all pass, the
/// warnings they carry.
fn audit_files(
    generated: &FileMap,
    locals: &Vec<Vec<char>>,
    templates: &Vec<TemplateAxiom>,
    Ghost(generated_dir): Ghost<Seq<char>>,
) -> (r: Result<Vec<Key>, AdapterError>)
    requires
        locals@.len() == templates@.len(),
        forall|i: int| 0 <= i < locals@.len() ==> #[trigger] locals@[i]@ == local_path(generated_dir, templates@[i].file@),
    ensures
        match first_fault(generated@, generated@.len(), file_steps(generated_dir, templates@)) {
            Some(f) => r matches Err(e) && is_boundary_fault(e, f),
            None => r matches Ok(found) && key_views(found@) == found_keys(generated@, generated@.len()),
        },
{
    let ghost files = generated@;
    let ghost step = file_steps(generated_dir, templates@);
    let mut found: Vec<Key> = Vec::new();
    let mut k: usize = 0;
    let n = generated.len();
    while k < n
        invariant
            files == generated@,
            n == files.len(),
            step == file_steps(generated_dir, templates@),
            k <= files.len(),
            locals@.len() == templates@.len(),
            forall|j: int| 0 <= j < locals@.len() ==> #[trigger] locals@[j]@ == local_path(generated_dir, templates@[j].file@),
            first_fault(files, k as nat, step) is None,
            key_views(found@) == found_keys(files, k as nat),
        decreases files.len() - k,
    {
        let path = generated.path_at(k);
        let bytes = generated.bytes_at(k);
        proof {
            assert(step(files, k as int) == match file_fault(generated_dir, templates@, path@, bytes@) {
                Some(m) => Some(BoundaryFault::Generated(m)),
                None => None,
            });
        }
        let checked = audit_file(path, bytes, locals, templates, &mut found, Ghost(generated_dir));
        if let Err(e) = checked {
            proof {
                lemma_fault_at(files, step, k as nat);
            }
            return Err(e);
        }
        proof {
            assert(found_keys(files, (k + 1) as nat) == found_keys(files, k as nat) + file_keys(
                files[k as int].0,
                files[k as int].1,
            ));
        }
        k = k + 1;
    }
    Ok(found)
}

/// The paths of the generated files.
fn generated_names(generated: &FileMap) -> (names: Vec<Vec<char>>)
    ensures
        names@.len() == generated@.len(),
        forall|j: int| 0 <= j < names@.len() ==> #[trigger] names@[j]@ == generated@[j].0,
{
    let mut names: Vec<Vec<char>> = Vec::new();
    let mut k: usize = 0;
    let n = generated.len();
    while k < n
        invariant
            n == generated@.len(),
            k <= n,
            names@.len() == k,
            forall|j: int| 0 <= j < k ==> #[trigger] names@[j]@ == generated@[j].0,
        decreases n - k,
    {
        let mut copy: Vec<char> = Vec::new();
        extend_chars(&mut copy, generated.path_at(k));
        names.push(copy);
        k = k + 1;
    }
    names
}

/// The least of the declared template paths that no generated file has.
fn least_missing_template(
    locals: &Vec<Vec<char>>,
    names: &Vec<Vec<char>>,
    Ghost(generated_dir): Ghost<Seq<char>>,
    Ghost(templates): Ghost<Seq<TemplateAxiom>>,
    Ghost(files): Ghost<Seq<(Seq<char>, Seq<u8>)>>,
) -> (r: Option<Vec<char>>)
    requires
        locals@.len() == templates.len(),
        forall|j: int| 0 <= j < locals@.len() ==> #[trigger] locals@[j]@ == local_path(generated_dir, templates[j].file@),
        names@.len() == files.len(),
        forall|j: int| 0 <= j < files.len() ==> #[trigger] names@[j]@ == files[j].0,
    ensures
        match r {
            None => !exists|t: Seq<char>| ungenerated(generated_dir, templates, files, t),
            Some(b) => (exists|t: Seq<char>| ungenerated(generated_dir, templates, files, t)) && b@
                == least_ungenerated(generated_dir, templates, files),
        },
{
    let ghost gd = generated_dir;
    let ghost ts = templates;
    let mut best: Option<Vec<char>> = None;
    let mut i: usize = 0;
    while i < locals.len()
        invariant
            i <= locals@.len(),
            locals@.len() == ts.len(),
            forall|j: int| 0 <= j < locals@.len() ==> #[trigger] locals@[j]@ == local_path(gd, ts[j].file@),
            names@.len() == files.len(),
            forall|j: int| 0 <= j < files.len() ==> #[trigger] names@[j]@ == files[j].0,
            best is None ==> forall|j: int| 0 <= j < i ==> !ungenerated(gd, ts, files, #[trigger] locals@[j]@),
            best matches Some(b) ==> ungenerated(gd, ts, files, b@) && forall|j: int|
                0 <= j < i && ungenerated(gd, ts, files, #[trigger] locals@[j]@) ==> !seq_lt(locals@[j]@, b@),
        decreases locals@.len() - i,
    {
        let l = locals[i].as_slice();
        let present = contains_chars(names, l);
        proof {
            assert(local_path(gd, ts[i as int].file@) == l@);
            if present {
                let j = choose|j: int| 0 <= j < views(names@).len() && views(names@)[j] == l@;
                assert(names@[j]@ == l@);
                assert(files[j].0 == l@);
                assert(!ungenerated(gd, ts, files, l@));
            } else {
                assert forall|j: int| 0 <= j < files.len() implies #[trigger] files[j].0 != l@ by {
                    assert(views(names@)[j] == names@[j]@);
                }
                assert(ungenerated(gd, ts, files, l@));
            }
        }
        if !present {
            let ghost old_best = best;
            let better = match &best {
                None => true,
                Some(b) => compare_chars(l, b.as_slice()) == -1,
            };
            if better {
                let mut copy: Vec<char> = Vec::new();
                extend_chars(&mut copy, l);
                best = Some(copy);
                proof {
                    assert forall|j: int|
                        0 <= j < i + 1 && ungenerated(gd, ts, files, #[trigger] locals@[j]@) implies !seq_lt(
                        locals@[j]@,
                        l@,
                    ) by {
                        if j < i {
                            if let Some(b) = old_best {
                                assert(!seq_lt(locals@[j]@, b@));
                                if seq_lt(locals@[j]@, l@) {
                                    lemma_lt_transitive(locals@[j]@, l@, b@);
                                }
                            }
                        } else {
                            crate::inventory::lemma_lt_irreflexive(l@);
                        }
                    }
                }
            } else {
                proof {
                    if let Some(b) = old_best {
                        lemma_lt_total(l@, b@);
                        if seq_lt(b@, l@) {
                            lemma_lt_asymmetric(b@, l@);
                        }
                    }
                }
            }
        }
        i = i + 1;
    }
    proof {
        let ghost final_best = best;
        match final_best {
            Some(b) => {
                assert forall|t: Seq<char>| #[trigger] ungenerated(gd, ts, files, t) implies !seq_lt(t, b@) by {
                    let j = choose|j: int| 0 <= j < ts.len() && #[trigger] local_path(gd, ts[j].file@) == t;
                    assert(locals@[j]@ == t);
                }
                let c = least_ungenerated(gd, ts, files);
                assert(ungenerated(gd, ts, files, c) && forall|t: Seq<char>|
                    #[trigger] ungenerated(gd, ts, files, t) ==> !seq_lt(t, c));
                lemma_lt_total(c, b@);
            },
            None => {
                assert forall|t: Seq<char>| !ungenerated(gd, ts, files, t) by {
                    if ungenerated(gd, ts, files, t) {
                        let j = choose|j: int| 0 <= j < ts.len() && #[trigger] local_path(gd, ts[j].file@) == t;
                        assert(locals@[j]@ == t);
                    }
                }
            },
        }
    }
    best
}

/// Compares the expected warning keys with those found.
fn compare_warnings(expected: &Vec<Key>, found: &Vec<Key>) -> (r: Result<(), AdapterError>)
    ensures
        same_keys(key_views(expected@), key_views(found@)) ==> r is Ok,
        !same_keys(key_views(expected@), key_views(found@)) ==> exists|m: Seq<KeyView>, x: Seq<KeyView>|
            keys_without(m, key_views(expected@), key_views(found@)) && keys_without(
                x,
                key_views(found@),
                key_views(expected@),
            ) && (r matches Err(AdapterError::Generated(s)) && s@ == warning_mismatch(m, x)),
{
    let ghost e = key_views(expected@);
    let ghost a = key_views(found@);
    let es = sorted_keys(expected);
    let fs = sorted_keys(found);
    let missing = keys_missing(&es, &fs);
    let extra = keys_missing(&fs, &es);
    if missing.len() == 0 && extra.len() == 0 {
        proof {
            assert forall|x: KeyView| e.contains(x) <==> a.contains(x) by {
                if e.contains(x) && !a.contains(x) {
                    assert(key_views(missing@).contains(x));
                }
                if a.contains(x) && !e.contains(x) {
                    assert(key_views(extra@).contains(x));
                }
            }
        }
        Ok(())
    } else {
        let mut m = "warning inventory mismatch; missing=".to_owned();
        m.append(render_keys(&missing).as_str());
        m.append(", extra=");
        m.append(render_keys(&extra).as_str());
        proof {
            reveal_strlit("warning inventory mismatch; missing=");
            reveal_strlit(", extra=");
            if same_keys(e, a) {
                if missing.len() > 0 {
                    assert(key_views(missing@).contains(key_views(missing@)[0]));
                } else {
                    assert(key_views(extra@).contains(key_views(extra@)[0]));
                }
            }
            assert(keys_without(key_views(missing@), e, a));
            assert(keys_without(key_views(extra@), a, e));
        }
        Err(AdapterError::Generated(m))
    }
}

/// The declared path of each template below the generated tree.
fn template_locals(glen: usize, ts: &Vec<TemplateAxiom>, Ghost(gd): Ghost<Seq<char>>) -> (locals: Vec<Vec<char>>)
    requires
        glen == components(gd).len(),
        forall|j: int|
            0 <= j < ts@.len() ==> is_relative_path(#[trigger] ts@[j].file@) && components_prefix(gd, ts@[j].file@),
    ensures
        locals@.len() == ts@.len(),
        forall|j: int| 0 <= j < ts@.len() ==> #[trigger] locals@[j]@ == local_path(gd, ts@[j].file@),
{
    let mut locals: Vec<Vec<char>> = Vec::new();
    let mut i: usize = 0;
    while i < ts.len()
        invariant
            glen == components(gd).len(),
            i <= ts@.len(),
            locals@.len() == i,
            forall|j: int| 0 <= j < i ==> #[trigger] locals@[j]@ == local_path(gd, ts@[j].file@),
            forall|j: int|
                0 <= j < ts@.len() ==> is_relative_path(#[trigger] ts@[j].file@) && components_prefix(
                    gd,
                    ts@[j].file@,
                ),
        decreases ts@.len() - i,
    {
        let l = local_of(glen, ts[i].file.as_str());
        locals.push(l);
        i = i + 1;
    }
    locals
}

/// The warning keys the inventory declares.
fn expected_warning_keys(glen: usize, ws: &Vec<WarningInventory>, Ghost(gd): Ghost<Seq<char>>) -> (expected: Vec<Key>)
    requires
        glen == components(gd).len(),
        forall|j: int|
            0 <= j < ws@.len() ==> is_relative_path(#[trigger] ws@[j].artifact@) && components_prefix(
                gd,
                ws@[j].artifact@,
            ),
    ensures
        key_views(expected@) == expected_keys(gd, ws@),
{
    let mut expected: Vec<Key> = Vec::new();
    let mut i: usize = 0;
    while i < ws.len()
        invariant
            glen == components(gd).len(),
            i <= ws@.len(),
            key_views(expected@) == expected_keys(gd, ws@.take(i as int)),
            forall|j: int|
                0 <= j < ws@.len() ==> is_relative_path(#[trigger] ws@[j].artifact@) && components_prefix(
                    gd,
                    ws@[j].artifact@,
                ),
        decreases ws@.len() - i,
    {
        let w = &ws[i];
        let k: Key = (local_of(glen, w.artifact.as_str()), w.line, chars_of(w.kind.as_str()));
        let ghost before = key_views(expected@);
        expected.push(k);
        proof {
            assert(key_views(expected@) =~= before.push(key_view(k)));
            assert(ws@.take(i + 1) =~= ws@.take(i as int).push(ws@[i as int]));
            assert(expected_keys(gd, ws@.take(i + 1)) =~= expected_keys(gd, ws@.take(i as int)).push(
                key_view(k),
            ));
        }
        i = i + 1;
    }
    proof {
        assert(ws@.take(ws@.len() as int) =~= ws@);
    }
    expected
}

/// Audits the generated files, by path below the generated tree, against the translation's template
/// axioms and warning inventory: every Lean file is UTF-8 and holds exactly
/// the axioms its template declares (none without one), every template was
/// generated, and the `sorry` and `sorryAx` tokens found are exactly the
/// warning inventory.
#[verifier::rlimit(50)]
pub fn audit_generated_inventory(generated: &FileMap, unit: &TranslationUnit) -> (r: Result<
    (),
    AdapterError,
>)
    requires
        is_relative_path(unit.generated_dir@) ==> forall|i: int|
            0 <= i < unit.template_axioms@.len() ==> is_relative_path(
                #[trigger] unit.template_axioms@[i].file@,
            ) && components_prefix(unit.generated_dir@, unit.template_axioms@[i].file@),
        is_relative_path(unit.generated_dir@) ==> forall|i: int|
            0 <= i < unit.warning_inventory@.len() ==> is_relative_path(
                #[trigger] unit.warning_inventory@[i].artifact@,
            ) && components_prefix(unit.generated_dir@, unit.warning_inventory@[i].artifact@),
    ensures
        match inventory_fault(*unit, generated@) {
            Some(f) => r matches Err(e) && is_boundary_fault(e, f),
            None => {
                let e = expected_keys(unit.generated_dir@, unit.warning_inventory@);
                let a = found_keys(generated@, generated@.len());
                if same_keys(e, a) {
                    r is Ok
                } else {
                    exists|m: Seq<KeyView>, x: Seq<KeyView>|
                        keys_without(m, e, a) && keys_without(x, a, e) && (r matches Err(
                            AdapterError::Generated(s),
                        ) && s@ == warning_mismatch(m, x))
                }
            },
        },
{
    let g = unit.generated_dir.as_str();
    validate_relative_path(g)?;
    let ghost gd = unit.generated_dir@;
    let ts = &unit.template_axioms;
    let ws = &unit.warning_inventory;
    let gc = chars_of(g);
    let gparts = components_of(gc.as_slice());
    let glen = gparts.len();
    let locals = template_locals(glen, ts, Ghost(gd));
    let expected = expected_warning_keys(glen, ws, Ghost(gd));
    let found = audit_files(generated, &locals, ts, Ghost(gd))?;
    let names = generated_names(generated);
    if let Some(b) = least_missing_template(&locals, &names, Ghost(gd), Ghost(ts@), Ghost(generated@)) {
        let name = string_of(b.as_slice());
        return Err(AdapterError::Generated(framed("declared template `", name.as_str(), "` was not generated")));
    }
    compare_warnings(&expected, &found)
}

/// Whether some file of `files` has path `p`.
pub open spec fn has_path(files: Seq<(Seq<char>, Seq<u8>)>, p: Seq<char>) -> bool {
    exists|i: int| 0 <= i < files.len() && #[trigger] files[i].0 == p
}

/// The paths of `a[..n]` that `b` lacks, in order.
pub open spec fn paths_missing(a: Seq<(Seq<char>, Seq<u8>)>, b: Seq<(Seq<char>, Seq<u8>)>, n: nat) -> Seq<Seq<char>>
    decreases n,
{
    if n == 0 || n > a.len() {
        Seq::empty()
    } else if has_path(b, a[n - 1].0) {
        paths_missing(a, b, (n - 1) as nat)
    } else {
        paths_missing(a, b, (n - 1) as nat).push(a[n - 1].0)
    }
}

/// The paths of `a[..n]` that `b` has with other bytes, in order.
pub open spec fn paths_changed(a: Seq<(Seq<char>, Seq<u8>)>, b: Seq<(Seq<char>, Seq<u8>)>, n: nat) -> Seq<Seq<char>>
    decreases n,
{
    if n == 0 || n > a.len() {
        Seq::empty()
    } else if exists|j: int| 0 <= j < b.len() && #[trigger] b[j].0 == a[n - 1].0 && b[j].1 != a[n - 1].1 {
        paths_changed(a, b, (n - 1) as nat).push(a[n - 1].0)
    } else {
        paths_changed(a, b, (n - 1) as nat)
    }
}

/// How a committed generated tree differs from the one just produced: the
/// produced paths it lacks, the paths only it has, and the shared paths
/// whose bytes differ, each listed with `{:?}`.
pub open spec fn drift_message(committed: Seq<(Seq<char>, Seq<u8>)>, produced: Seq<(Seq<char>, Seq<u8>)>) -> Seq<
    char,
> {
    "committed generated tree drifted; missing="@ + crate::text::debug_strings(
        paths_missing(produced, committed, produced.len()),
    ) + ", extra="@ + crate::text::debug_strings(paths_missing(committed, produced, committed.len()))
        + ", changed="@ + crate::text::debug_strings(paths_changed(committed, produced, committed.len()))
}

/// Whether two byte strings are equal.
fn bytes_equal(a: &[u8], b: &[u8]) -> (r: bool)
    ensures
        r == (a@ == b@),
{
    if a.len() != b.len() {
        return false;
    }
    let mut i: usize = 0;
    while i < a.len()
        invariant
            a@.len() == b@.len(),
            i <= a@.len(),
            forall|j: int| 0 <= j < i ==> a@[j] == b@[j],
        decreases a@.len() - i,
    {
        if a[i] != b[i] {
            return false;
        }
        i = i + 1;
    }
    proof {
        assert(a@ =~= b@);
    }
    true
}

/// The index of the file with path `p`.
fn find_path(files: &FileMap, p: &[char]) -> (r: Option<usize>)
    ensures
        match r {
            None => !has_path(files@, p@),
            Some(j) => j < files@.len() && files@[j as int].0 == p@,
        },
{
    let n = files.len();
    let mut j: usize = 0;
    while j < n
        invariant
            n == files@.len(),
            j <= n,
            forall|k: int| 0 <= k < j ==> #[trigger] files@[k].0 != p@,
        decreases n - j,
    {
        if compare_chars(files.path_at(j), p) == 0 {
            return Some(j);
        }
        j = j + 1;
    }
    None
}

/// Whether two sets of files are the same.
pub(crate) fn same_files(a: &FileMap, b: &FileMap) -> (r: bool)
    ensures
        r == (a@ == b@),
{
    let n = a.len();
    if n != b.len() {
        return false;
    }
    let mut i: usize = 0;
    while i < n
        invariant
            n == a@.len(),
            n == b@.len(),
            i <= n,
            forall|j: int| 0 <= j < i ==> a@[j] == b@[j],
        decreases n - i,
    {
        if compare_chars(a.path_at(i), b.path_at(i)) != 0 || !bytes_equal(a.bytes_at(i), b.bytes_at(i)) {
            return false;
        }
        i = i + 1;
    }
    proof {
        assert(a@ =~= b@);
    }
    true
}

/// The paths of `a` that `b` lacks, in order.
fn missing_paths(a: &FileMap, b: &FileMap) -> (out: Vec<String>)
    ensures
        string_views(out@) == paths_missing(a@, b@, a@.len()),
{
    let n = a.len();
    let mut out: Vec<String> = Vec::new();
    let mut i: usize = 0;
    while i < n
        invariant
            n == a@.len(),
            i <= n,
            string_views(out@) == paths_missing(a@, b@, i as nat),
        decreases n - i,
    {
        let p = a.path_at(i);
        let ghost before = string_views(out@);
        match find_path(b, p) {
            Some(j) => {
                proof {
                    assert(b@[j as int].0 == a@[i as int].0);
                }
            },
            None => {
                out.push(string_of(p));
                proof {
                    assert(string_views(out@) =~= before.push(p@));
                }
            },
        }
        i = i + 1;
    }
    out
}

/// The paths of `a` that `b` has with other bytes, in order.
fn changed_paths(a: &FileMap, b: &FileMap) -> (out: Vec<String>)
    ensures
        string_views(out@) == paths_changed(a@, b@, a@.len()),
{
    let n = a.len();
    // `len` also states that `b` is sorted by path, so a path names one file.
    let _ = b.len();
    let mut out: Vec<String> = Vec::new();
    let mut i: usize = 0;
    while i < n
        invariant
            n == a@.len(),
            crate::files::paths_sorted(b@),
            i <= n,
            string_views(out@) == paths_changed(a@, b@, i as nat),
        decreases n - i,
    {
        let p = a.path_at(i);
        let ghost before = string_views(out@);
        let differs = match find_path(b, p) {
            Some(j) => !bytes_equal(b.bytes_at(j), a.bytes_at(i)),
            None => false,
        };
        proof {
            crate::files::lemma_unique_paths(b@);
            let w = exists|j: int| 0 <= j < b@.len() && #[trigger] b@[j].0 == a@[i as int].0 && b@[j].1 != a@[i as int].1;
            if w {
                let j = choose|j: int| 0 <= j < b@.len() && #[trigger] b@[j].0 == a@[i as int].0 && b@[j].1 != a@[i as int].1;
                assert(has_path(b@, p@));
            }
        }
        if differs {
            out.push(string_of(p));
            proof {
                assert(string_views(out@) =~= before.push(p@));
            }
        }
        i = i + 1;
    }
    out
}

/// Compares the committed generated files with those just produced,
/// naming what drifted.
pub fn compare_committed_generated(committed: &FileMap, produced: &FileMap) -> (r: Result<(), AdapterError>)
    ensures
        committed@ == produced@ ==> r is Ok,
        committed@ != produced@ ==> (r matches Err(AdapterError::Generated(m)) && m@ == drift_message(
            committed@,
            produced@,
        )),
{
    if same_files(committed, produced) {
        return Ok(());
    }
    let missing = missing_paths(produced, committed);
    let extra = missing_paths(committed, produced);
    let changed = changed_paths(committed, produced);
    let mut m = "committed generated tree drifted; missing=".to_owned();
    m.append(crate::text::debug_list(&missing).as_str());
    m.append(", extra=");
    m.append(crate::text::debug_list(&extra).as_str());
    m.append(", changed=");
    m.append(crate::text::debug_list(&changed).as_str());
    proof {
        reveal_strlit("committed generated tree drifted; missing=");
        reveal_strlit(", extra=");
        reveal_strlit(", changed=");
    }
    Err(AdapterError::Generated(m))
}

/// A path whose file name ends in a `.json` extension.
pub open spec fn is_json_file(path: Seq<char>) -> bool {
    let c = components(path);
    c.len() > 0 && c.last().len() > 5 && ends_with(c.last(), ".json"@)
}

/// The bytes a committed generated file is compared by: JSON as it stands,
/// since produced JSON is already canonical, and any other file with its
/// text normalized.
pub fn committed_file_bytes(relative: &str, bytes: Vec<u8>) -> (out: Vec<u8>)
    ensures
        out@ == if is_json_file(relative@) {
            bytes@
        } else {
            encode_utf8(crate::normalize::normalized_text_lines(bytes@))
        },
{
    let c = chars_of(relative);
    let parts = components_of(c.as_slice());
    let json = if parts.len() == 0 {
        false
    } else {
        let last = parts[parts.len() - 1].as_slice();
        proof {
            assert(views(parts@).last() == last@);
        }
        let suffix = chars_of(".json");
        proof {
            reveal_strlit(".json");
        }
        last.len() > 5 && matches_at(last, suffix.as_slice(), last.len() - suffix.len())
    };
    if json {
        bytes
    } else {
        crate::normalize::normalize_text_bytes(bytes.as_slice())
    }
}

/// Where no fault was found in `items[..n]`, no item there has one.
pub proof fn lemma_no_fault_each<T>(items: Seq<T>, step: spec_fn(Seq<T>, int) -> Option<BoundaryFault>, n: nat, i: int)
    requires
        first_fault(items, n, step) is None,
        0 <= i < n,
    ensures
        step(items, i) is None,
    decreases n,
{
    if i < n - 1 {
        lemma_no_fault_each(items, step, (n - 1) as nat, i);
    }
}

/// A generated tree passes the audit only if every Lean file in it is
/// UTF-8 and holds exactly the axioms its template declares (none where no
/// template names it), and every declared template was generated.
pub proof fn lemma_accepted_tree_has_only_declared_axioms(unit: TranslationUnit, files: Seq<(Seq<char>, Seq<u8>)>)
    requires
        inventory_fault(unit, files) is None,
    ensures
        forall|i: int|
            0 <= i < files.len() && is_lean_file(#[trigger] files[i].0) ==> valid_utf8(files[i].1) && axiom_count(
                files[i].1,
            ) == match template_count(unit.generated_dir@, unit.template_axioms@, files[i].0) {
                Some(e) => e as nat,
                None => 0,
            },
        forall|t: Seq<char>| !ungenerated(unit.generated_dir@, unit.template_axioms@, files, t),
{
    let g = unit.generated_dir@;
    let ts = unit.template_axioms@;
    assert forall|i: int| 0 <= i < files.len() && is_lean_file(#[trigger] files[i].0) implies valid_utf8(
        files[i].1,
    ) && axiom_count(files[i].1) == match template_count(g, ts, files[i].0) {
        Some(e) => e as nat,
        None => 0,
    } by {
        lemma_no_fault_each(files, file_steps(g, ts), files.len(), i);
        assert(file_fault(g, ts, files[i].0, files[i].1) is None);
    }
}

} // verus!
