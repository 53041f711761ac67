//! Declaration kinds: what a query captures for each kind, how a match reads
//! as a declaration, and how a matched declaration is shadowed or deleted.

use vstd::prelude::*;
use crate::edit::{insert_text, inserted, remove_span, removed, same_text, utf8, valid_span};
use crate::manifest::{overwrites_ref, PatchType};
use crate::patch::parser::{delete_outcome, shadow_outcome, Parser};
use crate::query::{capture_span, go_query_matches, span_of, Capture, MatchView};
use const_decl::ConstDeclPattern;
use func_decl::FunctionDeclPattern;
use import_decl::ImportDeclPattern;
use interface_decl::InterfaceDeclPattern;
use method_decl::MethodDeclPattern;
use struct_decl::StructDeclPattern;
use variable_decl::VariableDeclPattern;

pub mod const_decl;
pub mod func_decl;
pub mod import_decl;
pub mod interface_decl;
pub mod method_decl;
pub mod method_decl_without_receiver_name;
pub mod module_decl;
pub mod struct_decl;
pub mod variable_decl;

verus! {

/// A declaration kind, with its query and the reading of its matches.
pub trait Pattern: Sized {
    /// The tree query that finds declarations of this kind.
    spec fn spec_query() -> Seq<char>;

    /// What shadowing appends to the declared identifier.
    spec fn spec_suffix() -> Seq<char>;

    /// The identity of a declaration: two declarations are the same one
    /// when their identities are equal.
    spec fn key(&self) -> Seq<Seq<char>>;

    /// `self` is the declaration that the match `m` over the encoded text
    /// `b` captures.
    spec fn describes(&self, m: MatchView, b: Seq<u8>) -> bool;

    /// The identity that the match `m` over the encoded text `b` reads as;
    /// `None` where its captures are missing or not well formed.
    spec fn key_of(m: MatchView, b: Seq<u8>) -> Option<Seq<Seq<char>>>;

    /// The span of the identifier that shadowing renames.
    spec fn name_span(m: MatchView, b: Seq<u8>) -> Option<(int, int)>;

    /// The span that deletion removes.
    spec fn decl_span(m: MatchView, b: Seq<u8>) -> Option<(int, int)>;

    /// The spans that shadowing and deletion edit start and end at
    /// character boundaries.
    proof fn lemma_spans_valid(m: MatchView, b: Seq<u8>)
        ensures
            Self::name_span(m, b) matches Some(s) ==> valid_span(b, s.0, s.1),
            Self::decl_span(m, b) matches Some(s) ==> valid_span(b, s.0, s.1),
    ;

    /// A readable identifier of the declaration.
    fn ident(&self) -> (r: String)
        ensures
            self.key().len() > 0 && r@ == self.key()[0],
    ;

    /// The tree query of this kind.
    fn sexp() -> (r: &'static str)
        ensures
            r@ == Self::spec_query(),
    ;

    /// The declaration that the match `m` over `code` captures.
    fn from_match(m: &Vec<Capture>, code: &str) -> (r: Option<Self>)
        ensures
            r is Some <==> Self::key_of(m.deep_view(), utf8(code@)) is Some,
            r matches Some(p) ==> p.describes(m.deep_view(), utf8(code@)),
            r matches Some(p) ==> Self::key_of(m.deep_view(), utf8(code@)) == Some(p.key()),
    ;

    /// `code` with the identifier of the matched declaration renamed by the
    /// suffix of this kind; everything else stays as it was.
    fn append_suffix(m: &Vec<Capture>, code: &str) -> (r: Option<String>)
        ensures
            r is Some <==> Self::name_span(m.deep_view(), utf8(code@)) is Some,
            r matches Some(t) ==> t@ == inserted(
                code@,
                Self::name_span(m.deep_view(), utf8(code@)).unwrap().1,
                Self::spec_suffix(),
            ),
    ;

    /// `code` without the matched declaration.
    fn delete(m: &Vec<Capture>, code: &str) -> (r: Option<String>)
        ensures
            r is Some <==> Self::decl_span(m.deep_view(), utf8(code@)) is Some,
            r matches Some(t) ==> ({
                let s = Self::decl_span(m.deep_view(), utf8(code@)).unwrap();
                t@ == removed(code@, s.0, s.1)
            }),
    ;

    /// Whether two declarations are the same one.
    fn is_match(&self, other: &Self) -> (r: bool)
        ensures
            r == (self.key() == other.key()),
    ;
}

/// `code` with `suffix` put right after the capture `name` of `m`.
pub fn shadow_capture(m: &Vec<Capture>, name: &str, code: &str, suffix: &str) -> (r: Option<String>)
    ensures
        r is Some <==> capture_span(m.deep_view(), name@, utf8(code@)) is Some,
        r matches Some(t) ==> t@ == inserted(
            code@,
            capture_span(m.deep_view(), name@, utf8(code@)).unwrap().1,
            suffix@,
        ),
{
    match span_of(m, name, code) {
        None => None,
        Some(s) => Some(insert_text(code, s.1, suffix)),
    }
}

/// `code` without the span of the capture `name` of `m`.
pub fn delete_capture(m: &Vec<Capture>, name: &str, code: &str) -> (r: Option<String>)
    ensures
        r is Some <==> capture_span(m.deep_view(), name@, utf8(code@)) is Some,
        r matches Some(t) ==> ({
            let s = capture_span(m.deep_view(), name@, utf8(code@)).unwrap();
            t@ == removed(code@, s.0, s.1)
        }),
{
    match span_of(m, name, code) {
        None => None,
        Some(s) => Some(remove_span(code, s.0, s.1)),
    }
}

/// Why a patch cannot be applied.
#[derive(PartialEq, Eq, Structural, Clone, Copy, Debug)]
pub enum PatchError {
    /// The declaration kind tag is not one of the supported ones.
    UnknownPattern,
    /// A text could not be parsed and queried.
    QueryFailed,
    /// The code of a patch holds no declaration of its kind.
    NoDeclaration,
    /// The target file has no package clause.
    NoPackageClause,
}

/// The declaration kinds that a patch operation can target.
#[derive(PartialEq, Eq, Structural, Clone, Copy, Debug)]
pub enum DeclKind {
    Function,
    Method,
    Struct,
    Interface,
    Variable,
    Const,
    Import,
}

/// The declaration kind that a manifest tag names.
pub open spec fn kind_of(tag: Seq<char>) -> Option<DeclKind> {
    if tag == "function_declaration"@ {
        Some(DeclKind::Function)
    } else if tag == "method_declaration"@ {
        Some(DeclKind::Method)
    } else if tag == "struct_declaration"@ {
        Some(DeclKind::Struct)
    } else if tag == "interface_declaration"@ {
        Some(DeclKind::Interface)
    } else if tag == "variable_declaration"@ {
        Some(DeclKind::Variable)
    } else if tag == "const_declaration"@ {
        Some(DeclKind::Const)
    } else if tag == "import_declaration"@ {
        Some(DeclKind::Import)
    } else {
        None
    }
}

/// What one patch operation makes of `code`, given the matches of the
/// query of `P` over `code` and over the patch's own code `patch`: the
/// declaration of `patch` is looked up in `code` and shadowed, or deleted
/// where `overwrite` holds. `Ok(None)` where `code` has no such declaration.
pub open spec fn run_outcome<P: Pattern>(
    code: Seq<char>,
    code_matches: Seq<MatchView>,
    patch: Seq<char>,
    patch_matches: Seq<MatchView>,
    overwrite: bool,
) -> Result<Option<Seq<char>>, PatchError> {
    if patch_matches.len() == 0 || P::key_of(patch_matches[0], utf8(patch)) is None {
        Err(PatchError::NoDeclaration)
    } else {
        let key = P::key_of(patch_matches[0], utf8(patch)).unwrap();
        if overwrite {
            Ok(delete_outcome::<P>(code, code_matches, key))
        } else {
            Ok(shadow_outcome::<P>(code, code_matches, key))
        }
    }
}

/// `run_outcome` after both texts are parsed and queried.
pub open spec fn outcome_for<P: Pattern>(
    code: Seq<char>,
    patch: Seq<char>,
    overwrite: bool,
) -> Result<Option<Seq<char>>, PatchError> {
    match (go_query_matches(code, P::spec_query()), go_query_matches(patch, P::spec_query())) {
        (Some(cm), Some(pm)) => run_outcome::<P>(code, cm, patch, pm, overwrite),
        _ => Err(PatchError::QueryFailed),
    }
}

/// What a patch operation of kind `kind` makes of `code`.
pub open spec fn kind_outcome(
    kind: DeclKind,
    code: Seq<char>,
    patch: Seq<char>,
    overwrite: bool,
) -> Result<Option<Seq<char>>, PatchError> {
    match kind {
        DeclKind::Function => outcome_for::<FunctionDeclPattern>(code, patch, overwrite),
        DeclKind::Method => outcome_for::<MethodDeclPattern>(code, patch, overwrite),
        DeclKind::Struct => outcome_for::<StructDeclPattern>(code, patch, overwrite),
        DeclKind::Interface => outcome_for::<InterfaceDeclPattern>(code, patch, overwrite),
        DeclKind::Variable => outcome_for::<VariableDeclPattern>(code, patch, overwrite),
        DeclKind::Const => outcome_for::<ConstDeclPattern>(code, patch, overwrite),
        DeclKind::Import => outcome_for::<ImportDeclPattern>(code, patch, overwrite),
    }
}

/// What the patch operation tagged `pattern` makes of `code`.
pub open spec fn op_outcome(
    pattern: Seq<char>,
    code: Seq<char>,
    patch: Seq<char>,
    overwrite: bool,
) -> Result<Option<Seq<char>>, PatchError> {
    match kind_of(pattern) {
        Some(kind) => kind_outcome(kind, code, patch, overwrite),
        None => Err(PatchError::UnknownPattern),
    }
}

/// Whether `r` holds the outcome `want`.
pub open spec fn outcome_is(
    r: Result<Option<String>, PatchError>,
    want: Result<Option<Seq<char>>, PatchError>,
) -> bool {
    match (r, want) {
        (Ok(t), Ok(w)) => t.deep_view() == w,
        (Err(e), Err(f)) => e == f,
        _ => false,
    }
}

/// Looks the declaration of `target_parser`'s text up in `source_parser`'s
/// text and shadows it, or deletes it for `PatchType::Overwrite`.
pub fn run<P: Pattern>(
    source_parser: &Parser<P>,
    target_parser: &Parser<P>,
    patch_type: Option<&PatchType>,
) -> (r: Result<Option<String>, PatchError>)
    ensures
        outcome_is(
            r,
            run_outcome::<P>(
                source_parser.code_view(),
                source_parser.matches_view(),
                target_parser.code_view(),
                target_parser.matches_view(),
                overwrites_ref(patch_type),
            ),
        ),
{
    let target = match target_parser.find_first_match() {
        Some(t) => t,
        None => return Err(PatchError::NoDeclaration),
    };
    match patch_type {
        Some(PatchType::Overwrite) => Ok(source_parser.find_and_delete(&target)),
        _ => Ok(source_parser.find_and_patch(&target)),
    }
}

fn run_kind<P: Pattern>(code: &str, patch: &str, patch_type: Option<&PatchType>) -> (r: Result<
    Option<String>,
    PatchError,
>)
    ensures
        outcome_is(r, outcome_for::<P>(code@, patch@, overwrites_ref(patch_type))),
{
    let source_parser = match Parser::<P>::new(code) {
        Some(p) => p,
        None => return Err(PatchError::QueryFailed),
    };
    let target_parser = match Parser::<P>::new(patch) {
        Some(p) => p,
        None => return Err(PatchError::QueryFailed),
    };
    run(&source_parser, &target_parser, patch_type)
}

/// The declaration kind that the manifest tag `pattern` names.
pub fn kind_from_tag(pattern: &str) -> (r: Option<DeclKind>)
    ensures
        r == kind_of(pattern@),
{
    if same_text(pattern, "function_declaration") {
        Some(DeclKind::Function)
    } else if same_text(pattern, "method_declaration") {
        Some(DeclKind::Method)
    } else if same_text(pattern, "struct_declaration") {
        Some(DeclKind::Struct)
    } else if same_text(pattern, "interface_declaration") {
        Some(DeclKind::Interface)
    } else if same_text(pattern, "variable_declaration") {
        Some(DeclKind::Variable)
    } else if same_text(pattern, "const_declaration") {
        Some(DeclKind::Const)
    } else if same_text(pattern, "import_declaration") {
        Some(DeclKind::Import)
    } else {
        None
    }
}

/// Applies one patch operation of kind tag `pattern` to `code`: the
/// declaration in `patch` is looked up in `code` and shadowed, or deleted
/// for `PatchType::Overwrite`. `Ok(None)` where `code` has no such
/// declaration.
pub fn try_run(
    pattern: &str,
    code: String,
    patch: String,
    patch_type: Option<&PatchType>,
) -> (r: Result<Option<String>, PatchError>)
    ensures
        outcome_is(r, op_outcome(pattern@, code@, patch@, overwrites_ref(patch_type))),
{
    let code = code.as_str();
    let patch = patch.as_str();
    match kind_from_tag(pattern) {
        None => Err(PatchError::UnknownPattern),
        Some(DeclKind::Function) => run_kind::<FunctionDeclPattern>(code, patch, patch_type),
        Some(DeclKind::Method) => run_kind::<MethodDeclPattern>(code, patch, patch_type),
        Some(DeclKind::Struct) => run_kind::<StructDeclPattern>(code, patch, patch_type),
        Some(DeclKind::Interface) => run_kind::<InterfaceDeclPattern>(code, patch, patch_type),
        Some(DeclKind::Variable) => run_kind::<VariableDeclPattern>(code, patch, patch_type),
        Some(DeclKind::Const) => run_kind::<ConstDeclPattern>(code, patch, patch_type),
        Some(DeclKind::Import) => run_kind::<ImportDeclPattern>(code, patch, patch_type),
    }
}

} // verus!
