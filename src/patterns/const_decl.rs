//! Constant declarations.

use vstd::prelude::*;
use crate::patterns::{delete_capture, shadow_capture, Pattern};
use crate::query::{
    capture_span, optional_text, optional_text_of, required_text, text_of, Capture, MatchView,
};

verus! {

pub const S_EXP: &'static str = "
(source_file
    (const_declaration
        (const_spec
            name: (identifier) @name
            type: (type_identifier)? @type
        )
    ) @const_decl
)";

pub const REPLACE_SUFFIX: &'static str = "_replaced_by_const_decl";

/// A constant declaration: its name, its declared type (empty where it has
/// none) and whole text.
#[derive(Debug, PartialEq, Eq, Clone)]
pub struct ConstDeclPattern {
    pub const_name: String,
    pub const_type: String,
    pub const_itself: String,
}

impl Pattern for ConstDeclPattern {
    open spec fn spec_query() -> Seq<char> {
        S_EXP@
    }

    open spec fn spec_suffix() -> Seq<char> {
        REPLACE_SUFFIX@
    }

    open spec fn key(&self) -> Seq<Seq<char>> {
        seq![self.const_name@]
    }

    open spec fn describes(&self, m: MatchView, b: Seq<u8>) -> bool {
        &&& required_text(m, "const_decl"@, b) == Some(self.const_itself@)
        &&& required_text(m, "name"@, b) == Some(self.const_name@)
        &&& optional_text(m, "type"@, b) == Some(self.const_type@)
    }

    open spec fn key_of(m: MatchView, b: Seq<u8>) -> Option<Seq<Seq<char>>> {
        if required_text(m, "const_decl"@, b) is Some && required_text(m, "name"@, b) is Some
            && optional_text(m, "type"@, b) is Some {
            Some(seq![required_text(m, "name"@, b).unwrap()])
        } else {
            None
        }
    }

    open spec fn name_span(m: MatchView, b: Seq<u8>) -> Option<(int, int)> {
        capture_span(m, "name"@, b)
    }

    open spec fn decl_span(m: MatchView, b: Seq<u8>) -> Option<(int, int)> {
        capture_span(m, "const_decl"@, b)
    }

    proof fn lemma_spans_valid(m: MatchView, b: Seq<u8>) {
    }

    fn ident(&self) -> (r: String) {
        self.const_name.clone()
    }

    fn sexp() -> (r: &'static str) {
        S_EXP
    }

    fn from_match(m: &Vec<Capture>, code: &str) -> (r: Option<Self>) {
        let const_itself = text_of(m, "const_decl", code)?;
        let const_name = text_of(m, "name", code)?;
        let const_type = optional_text_of(m, "type", code)?;
        Some(ConstDeclPattern { const_name, const_type, const_itself })
    }

    fn append_suffix(m: &Vec<Capture>, code: &str) -> (r: Option<String>) {
        shadow_capture(m, "name", code, REPLACE_SUFFIX)
    }

    fn delete(m: &Vec<Capture>, code: &str) -> (r: Option<String>) {
        delete_capture(m, "const_decl", code)
    }

    fn is_match(&self, other: &Self) -> (r: bool) {
        let r = self.const_name == other.const_name;
        assert(r == (self.key() == other.key())) by {
            if self.key() == other.key() {
                assert(self.key()[0] == other.key()[0]);
            }
        }
        r
    }
}

} // verus!
