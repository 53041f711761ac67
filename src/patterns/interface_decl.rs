//! Interface type declarations. Their method names are read but take no part in
//! their identity, which is the type name alone.

use vstd::prelude::*;
use crate::patterns::{delete_capture, shadow_capture, Pattern};
use crate::query::{capture_span, capture_texts, required_text, text_of, texts_of, Capture, MatchView};

verus! {

pub const S_EXP: &'static str = "
(source_file
    (type_declaration
        (type_spec
            name: (type_identifier) @name
            type: (interface_type
                (method_elem
                    name: [(field_identifier)] @field_name
                )*
            )
        )
    ) @interface_decl
)";

pub const REPLACE_SUFFIX: &'static str = "_replaced_by_interface_decl";

/// An interface type declaration: its name, the method names its match
/// captured, and its whole text.
#[derive(Debug, PartialEq, Eq, Clone)]
pub struct InterfaceDeclPattern {
    pub name: String,
    pub fields: Vec<String>,
    pub interface_itself: String,
}

impl Pattern for InterfaceDeclPattern {
    open spec fn spec_query() -> Seq<char> {
        S_EXP@
    }

    open spec fn spec_suffix() -> Seq<char> {
        REPLACE_SUFFIX@
    }

    open spec fn key(&self) -> Seq<Seq<char>> {
        seq![self.name@]
    }

    open spec fn describes(&self, m: MatchView, b: Seq<u8>) -> bool {
        &&& required_text(m, "interface_decl"@, b) == Some(self.interface_itself@)
        &&& required_text(m, "name"@, b) == Some(self.name@)
        &&& capture_texts(m, "field_name"@, b, m.len()) == Some(self.fields.deep_view())
    }

    open spec fn key_of(m: MatchView, b: Seq<u8>) -> Option<Seq<Seq<char>>> {
        if required_text(m, "interface_decl"@, b) is Some && required_text(m, "name"@, b) is Some
            && capture_texts(m, "field_name"@, b, m.len()) is Some {
            Some(seq![required_text(m, "name"@, b).unwrap()])
        } else {
            None
        }
    }

    open spec fn name_span(m: MatchView, b: Seq<u8>) -> Option<(int, int)> {
        capture_span(m, "name"@, b)
    }

    open spec fn decl_span(m: MatchView, b: Seq<u8>) -> Option<(int, int)> {
        capture_span(m, "interface_decl"@, b)
    }

    proof fn lemma_spans_valid(m: MatchView, b: Seq<u8>) {
    }

    fn ident(&self) -> (r: String) {
        self.name.clone()
    }

    fn sexp() -> (r: &'static str) {
        S_EXP
    }

    fn from_match(m: &Vec<Capture>, code: &str) -> (r: Option<Self>) {
        let interface_itself = text_of(m, "interface_decl", code)?;
        let name = text_of(m, "name", code)?;
        let fields = texts_of(m, "field_name", code)?;
        Some(InterfaceDeclPattern { name, fields, interface_itself })
    }

    fn append_suffix(m: &Vec<Capture>, code: &str) -> (r: Option<String>) {
        shadow_capture(m, "name", code, REPLACE_SUFFIX)
    }

    fn delete(m: &Vec<Capture>, code: &str) -> (r: Option<String>) {
        delete_capture(m, "interface_decl", code)
    }

    fn is_match(&self, other: &Self) -> (r: bool) {
        let r = self.name == other.name;
        assert(r == (self.key() == other.key())) by {
            if self.key() == other.key() {
                assert(self.key()[0] == other.key()[0]);
            }
        }
        r
    }
}

} // verus!
