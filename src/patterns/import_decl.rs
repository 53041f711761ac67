//! Import specs inside an import list. An import is identified by its path.
//! Shadowing renames its alias; an import without alias gets the suffix as
//! its alias, which keeps the package out of reach of the file's code.

use vstd::prelude::*;
use crate::edit::insert_text;
use crate::patterns::{delete_capture, Pattern};
use crate::query::{
    capture_at, capture_span, find_capture, optional_text, optional_text_of, required_text,
    span_of, text_of, Capture, MatchView,
};

verus! {

pub const S_EXP: &'static str = "
(source_file
    (import_declaration
        (import_spec_list
            (import_spec
                (package_identifier)? @import_name
                (interpreted_string_literal) @import_path
            ) @import_spec
        )
    )
)+";

pub const REPLACE_SUFFIX: &'static str = "_replaced_by_import_decl";

/// An import spec: its alias (empty where it has none), its quoted path and
/// its whole text.
#[derive(Debug, PartialEq, Eq, Clone)]
pub struct ImportDeclPattern {
    pub import_name: String,
    pub import_path: String,
    pub import_spec: String,
}

impl Pattern for ImportDeclPattern {
    open spec fn spec_query() -> Seq<char> {
        S_EXP@
    }

    open spec fn spec_suffix() -> Seq<char> {
        REPLACE_SUFFIX@
    }

    open spec fn key(&self) -> Seq<Seq<char>> {
        seq![self.import_path@]
    }

    open spec fn describes(&self, m: MatchView, b: Seq<u8>) -> bool {
        &&& required_text(m, "import_spec"@, b) == Some(self.import_spec@)
        &&& optional_text(m, "import_name"@, b) == Some(self.import_name@)
        &&& required_text(m, "import_path"@, b) == Some(self.import_path@)
    }

    open spec fn key_of(m: MatchView, b: Seq<u8>) -> Option<Seq<Seq<char>>> {
        if required_text(m, "import_spec"@, b) is Some && optional_text(m, "import_name"@, b) is Some
            && required_text(m, "import_path"@, b) is Some {
            Some(seq![required_text(m, "import_path"@, b).unwrap()])
        } else {
            None
        }
    }

    /// The alias; without one, the empty span where the spec starts.
    open spec fn name_span(m: MatchView, b: Seq<u8>) -> Option<(int, int)> {
        match capture_at(m, "import_name"@) {
            Some(_) => capture_span(m, "import_name"@, b),
            None => match capture_span(m, "import_spec"@, b) {
                Some(s) => Some((s.0, s.0)),
                None => None,
            },
        }
    }

    open spec fn decl_span(m: MatchView, b: Seq<u8>) -> Option<(int, int)> {
        capture_span(m, "import_spec"@, b)
    }

    proof fn lemma_spans_valid(m: MatchView, b: Seq<u8>) {
    }

    fn ident(&self) -> (r: String) {
        self.import_path.clone()
    }

    fn sexp() -> (r: &'static str) {
        S_EXP
    }

    fn from_match(m: &Vec<Capture>, code: &str) -> (r: Option<Self>) {
        let import_spec = text_of(m, "import_spec", code)?;
        let import_name = optional_text_of(m, "import_name", code)?;
        let import_path = text_of(m, "import_path", code)?;
        Some(ImportDeclPattern { import_name, import_path, import_spec })
    }

    fn append_suffix(m: &Vec<Capture>, code: &str) -> (r: Option<String>) {
        let at = match find_capture(m, "import_name") {
            Some(_) => span_of(m, "import_name", code)?.1,
            None => span_of(m, "import_spec", code)?.0,
        };
        Some(insert_text(code, at, REPLACE_SUFFIX))
    }

    fn delete(m: &Vec<Capture>, code: &str) -> (r: Option<String>) {
        delete_capture(m, "import_spec", code)
    }

    fn is_match(&self, other: &Self) -> (r: bool) {
        let r = self.import_path == other.import_path;
        assert(r == (self.key() == other.key())) by {
            if self.key() == other.key() {
                assert(self.key()[0] == other.key()[0]);
            }
        }
        r
    }
}

} // verus!
