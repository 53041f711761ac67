//! Variable declarations.

use vstd::prelude::*;
use crate::patterns::{delete_capture, shadow_capture, Pattern};
use crate::query::{capture_span, required_text, text_of, Capture, MatchView};

verus! {

pub const S_EXP: &'static str = "
(source_file
    (var_declaration
        (var_spec
            name: (identifier) @name
        )
    ) @var_decl
)";

pub const REPLACE_SUFFIX: &'static str = "_replaced_by_var_decl";

/// A variable declaration: its name and whole text.
#[derive(Debug, PartialEq, Eq, Clone)]
pub struct VariableDeclPattern {
    pub var_name: String,
    pub var_itself: String,
}

impl Pattern for VariableDeclPattern {
    open spec fn spec_query() -> Seq<char> {
        S_EXP@
    }

    open spec fn spec_suffix() -> Seq<char> {
        REPLACE_SUFFIX@
    }

    open spec fn key(&self) -> Seq<Seq<char>> {
        seq![self.var_name@]
    }

    open spec fn describes(&self, m: MatchView, b: Seq<u8>) -> bool {
        &&& required_text(m, "var_decl"@, b) == Some(self.var_itself@)
        &&& required_text(m, "name"@, b) == Some(self.var_name@)
    }

    open spec fn key_of(m: MatchView, b: Seq<u8>) -> Option<Seq<Seq<char>>> {
        if required_text(m, "var_decl"@, b) is Some && required_text(m, "name"@, b) is Some {
            Some(seq![required_text(m, "name"@, b).unwrap()])
        } else {
            None
        }
    }

    open spec fn name_span(m: MatchView, b: Seq<u8>) -> Option<(int, int)> {
        capture_span(m, "name"@, b)
    }

    open spec fn decl_span(m: MatchView, b: Seq<u8>) -> Option<(int, int)> {
        capture_span(m, "var_decl"@, b)
    }

    proof fn lemma_spans_valid(m: MatchView, b: Seq<u8>) {
    }

    fn ident(&self) -> (r: String) {
        self.var_name.clone()
    }

    fn sexp() -> (r: &'static str) {
        S_EXP
    }

    fn from_match(m: &Vec<Capture>, code: &str) -> (r: Option<Self>) {
        let var_itself = text_of(m, "var_decl", code)?;
        let var_name = text_of(m, "name", code)?;
        Some(VariableDeclPattern { var_name, var_itself })
    }

    fn append_suffix(m: &Vec<Capture>, code: &str) -> (r: Option<String>) {
        shadow_capture(m, "name", code, REPLACE_SUFFIX)
    }

    fn delete(m: &Vec<Capture>, code: &str) -> (r: Option<String>) {
        delete_capture(m, "var_decl", code)
    }

    fn is_match(&self, other: &Self) -> (r: bool) {
        let r = self.var_name == other.var_name;
        assert(r == (self.key() == other.key())) by {
            if self.key() == other.key() {
                assert(self.key()[0] == other.key()[0]);
            }
        }
        r
    }
}

} // verus!
