//! The patch engine: all the operations of one manifest entry applied to
//! the text of its target file.

use vstd::prelude::*;
use core::ops::Range;
use crate::edit::utf8;
use crate::manifest::{overwrites, overwrites_ref, Manifest, ManifestImport, Patch};
use crate::patch::parser::Parser;
use crate::patterns::module_decl::ModuleDeclPattern;
use crate::patterns::{op_outcome, try_run, PatchError, Pattern};
use crate::query::go_query_matches;

verus! {

/// What patching one file gives.
#[derive(Debug)]
pub struct Result {
    /// The package that the file declares.
    pub module_name: String,
    /// The file's text with the matched declarations shadowed or deleted.
    pub code: String,
    /// The import lines that the patches need, in order.
    pub imports: Vec<String>,
    /// The code of each patch, in order, to be appended to the file.
    pub patches: Vec<String>,
    /// Where imports can go: the span of the package name, right after
    /// which a block can be inserted.
    pub safe_range: Range<usize>,
}

/// The package name of `code` and the span where imports can go, read from
/// its package clause.
pub open spec fn package_of(code: Seq<char>) -> core::result::Result<
    (Seq<char>, (usize, usize)),
    PatchError,
> {
    match go_query_matches(code, ModuleDeclPattern::spec_query()) {
        None => Err(PatchError::QueryFailed),
        Some(ms) => if ms.len() == 0 || ModuleDeclPattern::key_of(ms[0], utf8(code)) is None
            || ms.last().len() == 0 {
            Err(PatchError::NoPackageClause)
        } else {
            Ok(
                (
                    ModuleDeclPattern::key_of(ms[0], utf8(code)).unwrap()[0],
                    (ms.last().last().1, ms.last().last().2),
                ),
            )
        },
    }
}

/// The import line of an import: `alias "path"`, or `"path"` where it has
/// no alias.
pub open spec fn import_line(alias: Seq<char>, path: Seq<char>) -> Seq<char> {
    if alias.len() == 0 {
        "\""@ + path + "\""@
    } else {
        alias + " "@ + "\""@ + path + "\""@
    }
}

/// The import lines of a list of imports.
pub open spec fn import_lines(v: Seq<ManifestImport>) -> Seq<Seq<char>> {
    v.map_values(|i: ManifestImport| import_line(i.alias@, i.path@))
}

/// The import lines of one patch operation.
pub open spec fn op_imports(p: Patch) -> Seq<Seq<char>> {
    match p.imports {
        Some(v) => import_lines(v@),
        None => Seq::empty(),
    }
}

/// The import lines of the first `n` operations, in order.
pub open spec fn imports_upto(ops: Seq<Patch>, n: nat) -> Seq<Seq<char>>
    decreases n,
{
    if n == 0 || n > ops.len() {
        Seq::empty()
    } else {
        imports_upto(ops, (n - 1) as nat) + op_imports(ops[n - 1])
    }
}

/// The code of each operation, in order.
pub open spec fn patch_codes(ops: Seq<Patch>) -> Seq<Seq<char>> {
    ops.map_values(|p: Patch| p.code@)
}

/// The text after the first `n` operations, each applied to what the ones
/// before it left; an operation whose declaration is not found leaves the
/// text as it is. The first error stops the run.
pub open spec fn apply_ops(code: Seq<char>, ops: Seq<Patch>, n: nat) -> core::result::Result<
    Seq<char>,
    PatchError,
>
    decreases n,
{
    if n == 0 || n > ops.len() {
        Ok(code)
    } else {
        match apply_ops(code, ops, (n - 1) as nat) {
            Err(e) => Err(e),
            Ok(c) => {
                let op = ops[n - 1];
                match op_outcome(op.pattern@, c, op.code@, overwrites(op.patch_type)) {
                    Err(e) => Err(e),
                    Ok(Some(next)) => Ok(next),
                    Ok(None) => Ok(c),
                }
            },
        }
    }
}

/// What patching a file gives, as values.
pub struct PatchView {
    pub module_name: Seq<char>,
    pub safe_range: (usize, usize),
    pub code: Seq<char>,
    pub imports: Seq<Seq<char>>,
    pub patches: Seq<Seq<char>>,
}

/// What `try_patch` gives for the text `code` and the operations `ops`.
pub open spec fn patch_spec(code: Seq<char>, ops: Seq<Patch>) -> core::result::Result<
    PatchView,
    PatchError,
> {
    match (package_of(code), apply_ops(code, ops, ops.len())) {
        (Err(e), _) => Err(e),
        (Ok(_), Err(e)) => Err(e),
        (Ok(pk), Ok(next)) => Ok(
            PatchView {
                module_name: pk.0,
                safe_range: pk.1,
                code: next,
                imports: imports_upto(ops, ops.len()),
                patches: patch_codes(ops),
            },
        ),
    }
}

impl Result {
    /// This result as values.
    pub open spec fn view_of(&self) -> PatchView {
        PatchView {
            module_name: self.module_name@,
            safe_range: (self.safe_range.start, self.safe_range.end),
            code: self.code@,
            imports: self.imports.deep_view(),
            patches: self.patches.deep_view(),
        }
    }
}

proof fn lemma_error_stays(code: Seq<char>, ops: Seq<Patch>, k: nat, n: nat)
    requires
        k <= n <= ops.len(),
        apply_ops(code, ops, k) is Err,
    ensures
        apply_ops(code, ops, n) == apply_ops(code, ops, k),
    decreases n - k,
{
    if k < n {
        lemma_error_stays(code, ops, k, (n - 1) as nat);
    }
}

/// The import line of `import`.
pub fn import_line_of(import: &ManifestImport) -> (r: String)
    ensures
        r@ == import_line(import.alias@, import.path@),
{
    let mut r = String::new();
    if !import.alias.as_str().is_empty() {
        r.append(import.alias.as_str());
        r.append(" ");
    }
    r.append("\"");
    r.append(import.path.as_str());
    r.append("\"");
    r
}

/// Applies every patch operation of `manifest`, in order, to `code`, the
/// text of its target file, and gathers what is to be added to the file.
pub fn try_patch(code: String, manifest: &Manifest) -> (r: core::result::Result<Result, PatchError>)
    ensures
        match patch_spec(code@, manifest.patch@) {
            Ok(v) => r matches Ok(res) && res.view_of() == v,
            Err(e) => r == core::result::Result::<Result, PatchError>::Err(e),
        },
{
    let package_parser = match Parser::<ModuleDeclPattern>::new(code.as_str()) {
        Some(p) => p,
        None => return Err(PatchError::QueryFailed),
    };
    let module = match package_parser.find_first_match() {
        Some(m) => m,
        None => return Err(PatchError::NoPackageClause),
    };
    let safe_range = match package_parser.find_next_line() {
        Some(range) => range,
        None => return Err(PatchError::NoPackageClause),
    };
    let module_name = module.name;

    let ghost initial = code@;
    assert(package_of(initial) == core::result::Result::<
        (Seq<char>, (usize, usize)),
        PatchError,
    >::Ok((module_name@, (safe_range.start, safe_range.end))));
    let ghost ops = manifest.patch@;
    let mut current = code;
    let mut imports: Vec<String> = Vec::new();
    let mut patches: Vec<String> = Vec::new();
    let mut i: usize = 0;
    while i < manifest.patch.len()
        invariant
            i <= manifest.patch.len(),
            ops == manifest.patch@,
            initial == code@,
            package_of(initial) == core::result::Result::<
                (Seq<char>, (usize, usize)),
                PatchError,
            >::Ok((module_name@, (safe_range.start, safe_range.end))),
            apply_ops(initial, ops, i as nat) == core::result::Result::<Seq<char>, PatchError>::Ok(
                current@,
            ),
            imports.deep_view() == imports_upto(ops, i as nat),
            patches.deep_view() == patch_codes(ops).take(i as int),
        decreases manifest.patch.len() - i,
    {
        let op = &manifest.patch[i];
        let patch_type = op.patch_type.as_ref();
        assert(overwrites(op.patch_type) == overwrites_ref(patch_type));
        let outcome = try_run(op.pattern.as_str(), current.clone(), op.code.clone(), patch_type);
        match outcome {
            Err(e) => {
                assert(apply_ops(initial, ops, (i + 1) as nat) == core::result::Result::<
                    Seq<char>,
                    PatchError,
                >::Err(e));
                proof {
                    lemma_error_stays(initial, ops, (i + 1) as nat, ops.len());
                }
                return Err(e);
            },
            Ok(Some(next)) => {
                current = next;
            },
            Ok(None) => {},
        }
        let ghost before = imports.deep_view();
        match &op.imports {
            Some(list) => {
                let mut j: usize = 0;
                while j < list.len()
                    invariant
                        j <= list.len(),
                        imports.deep_view() == before + import_lines(list@).take(j as int),
                    decreases list.len() - j,
                {
                    let line = import_line_of(&list[j]);
                    assert(import_lines(list@)[j as int] == line@);
                    let ghost prev = imports.deep_view();
                    imports.push(line);
                    assert(imports.deep_view() =~= prev.push(line@));
                    assert(import_lines(list@).take(j + 1) =~= import_lines(list@).take(
                        j as int,
                    ).push(line@));
                    assert(imports.deep_view() =~= before + import_lines(list@).take(j + 1));
                    j = j + 1;
                }
                assert(import_lines(list@).take(j as int) =~= import_lines(list@));
            },
            None => {
                assert(imports.deep_view() =~= before + Seq::<Seq<char>>::empty());
            },
        }
        let ghost before_patches = patches.deep_view();
        patches.push(op.code.clone());
        assert(patches.deep_view() =~= before_patches.push(op.code@));
        assert(patch_codes(ops)[i as int] == op.code@);
        assert(patches.deep_view() =~= patch_codes(ops).take(i + 1));
        i = i + 1;
    }
    assert(patch_codes(ops).take(i as int) =~= patch_codes(ops));
    Ok(Result { module_name, code: current, imports, patches, safe_range })
}

} // verus!
