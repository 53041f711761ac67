//! Package clauses. They are read, never rewritten: shadowing and deletion
//! give nothing.

use vstd::prelude::*;
use crate::patterns::Pattern;
use crate::query::{required_text, text_of, Capture, MatchView};

verus! {

pub const S_EXP: &'static str = "
(source_file
    (package_clause
      (package_identifier) @package)
)+";

/// A package clause: the package name.
#[derive(Debug, PartialEq, Eq, Clone)]
pub struct ModuleDeclPattern {
    pub name: String,
}

impl Pattern for ModuleDeclPattern {
    open spec fn spec_query() -> Seq<char> {
        S_EXP@
    }

    open spec fn spec_suffix() -> Seq<char> {
        Seq::empty()
    }

    open spec fn key(&self) -> Seq<Seq<char>> {
        seq![self.name@]
    }

    open spec fn describes(&self, m: MatchView, b: Seq<u8>) -> bool {
        required_text(m, "package"@, b) == Some(self.name@)
    }

    open spec fn key_of(m: MatchView, b: Seq<u8>) -> Option<Seq<Seq<char>>> {
        match required_text(m, "package"@, b) {
            Some(name) => Some(seq![name]),
            None => None,
        }
    }

    open spec fn name_span(m: MatchView, b: Seq<u8>) -> Option<(int, int)> {
        None
    }

    open spec fn decl_span(m: MatchView, b: Seq<u8>) -> Option<(int, int)> {
        None
    }

    proof fn lemma_spans_valid(m: MatchView, b: Seq<u8>) {
    }

    fn ident(&self) -> (r: String) {
        self.name.clone()
    }

    fn sexp() -> (r: &'static str) {
        S_EXP
    }

    fn from_match(m: &Vec<Capture>, code: &str) -> (r: Option<Self>) {
        let name = text_of(m, "package", code)?;
        Some(ModuleDeclPattern { name })
    }

    fn append_suffix(m: &Vec<Capture>, code: &str) -> (r: Option<String>) {
        None
    }

    fn delete(m: &Vec<Capture>, code: &str) -> (r: Option<String>) {
        None
    }

    fn is_match(&self, other: &Self) -> (r: bool) {
        let r = self.name == other.name;
        assert(r == (self.key() == other.key())) by {
            if self.key() == other.key() {
                assert(self.key()[0] == other.key()[0]);
            }
        }
        r
    }
}

} // verus!
