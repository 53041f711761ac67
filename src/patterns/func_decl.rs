//! Function declarations.

use vstd::prelude::*;
use crate::patterns::{delete_capture, shadow_capture, Pattern};
use crate::query::{
    capture_span, optional_text, optional_text_of, required_text, text_of, Capture, MatchView,
};

verus! {

pub const S_EXP: &'static str = "
(source_file
    (function_declaration
        name: (identifier) @name
        parameters: (parameter_list) @params
        result: (type_identifier)? @return
    ) @func_decl
)+";

pub const REPLACE_SUFFIX: &'static str = "_replaced_by_function_decl";

/// A function declaration: its name, parameter list, result type (empty
/// where it has none) and whole text.
#[derive(Debug, PartialEq, Eq, Clone)]
pub struct FunctionDeclPattern {
    pub name: String,
    pub param_t: String,
    pub return_t: String,
    pub fn_itself: String,
}

impl Pattern for FunctionDeclPattern {
    open spec fn spec_query() -> Seq<char> {
        S_EXP@
    }

    open spec fn spec_suffix() -> Seq<char> {
        REPLACE_SUFFIX@
    }

    open spec fn key(&self) -> Seq<Seq<char>> {
        seq![self.name@]
    }

    open spec fn describes(&self, m: MatchView, b: Seq<u8>) -> bool {
        &&& required_text(m, "func_decl"@, b) == Some(self.fn_itself@)
        &&& required_text(m, "name"@, b) == Some(self.name@)
        &&& required_text(m, "params"@, b) == Some(self.param_t@)
        &&& optional_text(m, "return"@, b) == Some(self.return_t@)
    }

    open spec fn key_of(m: MatchView, b: Seq<u8>) -> Option<Seq<Seq<char>>> {
        if required_text(m, "func_decl"@, b) is Some && required_text(m, "params"@, b) is Some
            && optional_text(m, "return"@, b) is Some && required_text(m, "name"@, b) is Some {
            Some(seq![required_text(m, "name"@, b).unwrap()])
        } else {
            None
        }
    }

    open spec fn name_span(m: MatchView, b: Seq<u8>) -> Option<(int, int)> {
        capture_span(m, "name"@, b)
    }

    open spec fn decl_span(m: MatchView, b: Seq<u8>) -> Option<(int, int)> {
        capture_span(m, "func_decl"@, b)
    }

    proof fn lemma_spans_valid(m: MatchView, b: Seq<u8>) {
    }

    fn ident(&self) -> (r: String) {
        self.name.clone()
    }

    fn sexp() -> (r: &'static str) {
        S_EXP
    }

    fn from_match(m: &Vec<Capture>, code: &str) -> (r: Option<Self>) {
        let fn_itself = text_of(m, "func_decl", code)?;
        let name = text_of(m, "name", code)?;
        let param_t = text_of(m, "params", code)?;
        let return_t = optional_text_of(m, "return", code)?;
        Some(FunctionDeclPattern { name, param_t, return_t, fn_itself })
    }

    fn append_suffix(m: &Vec<Capture>, code: &str) -> (r: Option<String>) {
        shadow_capture(m, "name", code, REPLACE_SUFFIX)
    }

    fn delete(m: &Vec<Capture>, code: &str) -> (r: Option<String>) {
        delete_capture(m, "func_decl", code)
    }

    fn is_match(&self, other: &Self) -> (r: bool) {
        let r = self.name == other.name;
        assert(r == (self.key() == other.key())) by {
            if self.key() == other.key() {
                assert(self.key()[0] == other.key()[0]);
            }
        }
        r
    }
}

} // verus!
