//! Tree queries over Go sources, and reading their captures.
//!
//! A query runs over the syntax tree of a text and yields matches; each match
//! is a list of captures, each a capture name and the byte range of the
//! captured node.

use vstd::prelude::*;
use crate::edit::{slice_text, span_text, utf8, valid_span};

verus! {

/// One capture of a query match: the capture's name and the byte range of
/// the node it captured.
#[derive(Debug, Clone, PartialEq, Eq)]
pub struct Capture {
    pub name: String,
    pub start: usize,
    pub end: usize,
}

impl DeepView for Capture {
    type V = (Seq<char>, usize, usize);

    open spec fn deep_view(&self) -> (Seq<char>, usize, usize) {
        (self.name@, self.start, self.end)
    }
}

/// A capture as a value: its name, start byte and end byte.
pub type CaptureView = (Seq<char>, usize, usize);

/// A match as a value: its captures, in the order the query engine gives them.
pub type MatchView = Seq<CaptureView>;

/// The matches of the tree query `query` over the Go syntax tree of `code`,
/// or `None` where the query does not compile.
pub uninterp spec fn go_query_matches(
    code: Seq<char>,
    query: Seq<char>,
) -> Option<Seq<Seq<(Seq<char>, usize, usize)>>>;

/// Relies on tree_sitter 0.22 with the grammar of tree_sitter_go: `Parser::parse`
/// of `code`, then `QueryCursor::matches` of `Query::new(query)` over the root
/// node. Each match comes back in the cursor's order, each capture as its name
/// (`Query::capture_names`) and `Node::start_byte` / `Node::end_byte`.
/// A failed `set_language`, `parse` or `Query::new` gives `None`.
#[verifier::external_body]
pub(crate) fn run_go_query(code: &str, query: &str) -> (r: Option<Vec<Vec<Capture>>>)
    ensures
        r.deep_view() == go_query_matches(code@, query@),
{
    let language = tree_sitter_go::language();
    let mut parser = tree_sitter::Parser::new();
    parser.set_language(&language).ok()?;
    let tree = parser.parse(code, None)?;
    let q = tree_sitter::Query::new(&language, query).ok()?;
    let mut cursor = tree_sitter::QueryCursor::new();
    let names = q.capture_names();
    let found = cursor.matches(&q, tree.root_node(), code.as_bytes());
    Some(found.map(|m| m.captures.iter().map(|c| Capture {
        name: names[c.index as usize].to_string(),
        start: c.node.start_byte(),
        end: c.node.end_byte(),
    }).collect()).collect())
}

/// Index of the first capture of `m` at or after `i` named `name`.
pub open spec fn capture_index_from(m: MatchView, name: Seq<char>, i: nat) -> Option<nat>
    decreases m.len() - i,
{
    if i >= m.len() {
        None
    } else if m[i as int].0 == name {
        Some(i)
    } else {
        capture_index_from(m, name, i + 1)
    }
}

/// The first capture of `m` named `name`.
pub open spec fn capture_at(m: MatchView, name: Seq<char>) -> Option<CaptureView> {
    match capture_index_from(m, name, 0) {
        Some(i) => Some(m[i as int]),
        None => None,
    }
}

/// The byte span of the capture `name`, where it is present and its span
/// starts and ends at character boundaries of `b`.
pub open spec fn capture_span(m: MatchView, name: Seq<char>, b: Seq<u8>) -> Option<(int, int)> {
    match capture_at(m, name) {
        Some(c) => if valid_span(b, c.1 as int, c.2 as int) {
            Some((c.1 as int, c.2 as int))
        } else {
            None
        },
        None => None,
    }
}

/// The text of a capture that must be present.
pub open spec fn required_text(m: MatchView, name: Seq<char>, b: Seq<u8>) -> Option<Seq<char>> {
    match capture_span(m, name, b) {
        Some(s) => Some(span_text(b, s.0, s.1)),
        None => None,
    }
}

/// The text of a capture that may be absent: empty where it is absent,
/// `None` where it is present with a span that is not well formed.
pub open spec fn optional_text(m: MatchView, name: Seq<char>, b: Seq<u8>) -> Option<Seq<char>> {
    match capture_at(m, name) {
        Some(_) => required_text(m, name, b),
        None => Some(Seq::empty()),
    }
}

/// The texts of all captures named `name` among the first `n` captures of
/// `m`, in order; `None` where one of their spans is not well formed.
pub open spec fn capture_texts(m: MatchView, name: Seq<char>, b: Seq<u8>, n: nat) -> Option<Seq<Seq<char>>>
    decreases n,
{
    if n == 0 {
        Some(Seq::empty())
    } else {
        match capture_texts(m, name, b, (n - 1) as nat) {
            None => None,
            Some(prev) => {
                let c = m[n - 1];
                if c.0 != name {
                    Some(prev)
                } else if valid_span(b, c.1 as int, c.2 as int) {
                    Some(prev.push(span_text(b, c.1 as int, c.2 as int)))
                } else {
                    None
                }
            },
        }
    }
}

/// The first capture of `m` named `name`.
pub fn find_capture<'a>(m: &'a Vec<Capture>, name: &str) -> (r: Option<&'a Capture>)
    ensures
        r.deep_view() == capture_at(m.deep_view(), name@),
{
    let key = name.to_owned();
    let ghost mv = m.deep_view();
    let mut i: usize = 0;
    while i < m.len()
        invariant
            i <= m.len(),
            mv == m.deep_view(),
            key@ == name@,
            capture_index_from(mv, name@, 0) == capture_index_from(mv, name@, i as nat),
        decreases m.len() - i,
    {
        if m[i].name == key {
            return Some(&m[i]);
        }
        i = i + 1;
    }
    None
}

/// The byte span of the capture `name` of `m`, where it is well formed.
pub fn span_of(m: &Vec<Capture>, name: &str, code: &str) -> (r: Option<(usize, usize)>)
    ensures
        r is Some <==> capture_span(m.deep_view(), name@, utf8(code@)) is Some,
        r matches Some(s) ==> capture_span(m.deep_view(), name@, utf8(code@)) == Some(
            (s.0 as int, s.1 as int),
        ),
{
    match find_capture(m, name) {
        None => None,
        Some(c) => {
            if start_end_ok(code, c.start, c.end) {
                Some((c.start, c.end))
            } else {
                None
            }
        },
    }
}

/// Whether `[start, end)` is a well formed span of `code`.
pub fn start_end_ok(code: &str, start: usize, end: usize) -> (r: bool)
    ensures
        r == valid_span(utf8(code@), start as int, end as int),
{
    start <= end && end <= code.as_bytes().len() && code.is_char_boundary(start)
        && code.is_char_boundary(end)
}

/// The text of the capture `name`, which must be present.
pub fn text_of(m: &Vec<Capture>, name: &str, code: &str) -> (r: Option<String>)
    ensures
        r.deep_view() == required_text(m.deep_view(), name@, utf8(code@)),
{
    match span_of(m, name, code) {
        None => None,
        Some(s) => slice_text(code, s.0, s.1),
    }
}

/// The text of the capture `name`, empty where the capture is absent.
pub fn optional_text_of(m: &Vec<Capture>, name: &str, code: &str) -> (r: Option<String>)
    ensures
        r.deep_view() == optional_text(m.deep_view(), name@, utf8(code@)),
{
    match find_capture(m, name) {
        None => Some(String::new()),
        Some(_) => text_of(m, name, code),
    }
}

/// The texts of all captures named `name`, in order.
pub fn texts_of(m: &Vec<Capture>, name: &str, code: &str) -> (r: Option<Vec<String>>)
    ensures
        r.deep_view() == capture_texts(m.deep_view(), name@, utf8(code@), m@.len()),
{
    let key = name.to_owned();
    let ghost mv = m.deep_view();
    let ghost b = utf8(code@);
    let mut out: Vec<String> = Vec::new();
    let mut i: usize = 0;
    while i < m.len()
        invariant
            i <= m.len(),
            mv == m.deep_view(),
            key@ == name@,
            b == utf8(code@),
            capture_texts(mv, name@, b, i as nat) == Some(out.deep_view()),
        decreases m.len() - i,
    {
        let c = &m[i];
        assert(mv[i as int] == c.deep_view());
        if c.name == key {
            match slice_text(code, c.start, c.end) {
                None => {
                    assert(capture_texts(mv, name@, b, (i + 1) as nat) is None);
                    assert forall|n: nat| #![auto] i + 1 <= n <= m@.len() implies capture_texts(mv, name@, b, n) is None by {
                        lemma_texts_stay_none(mv, name@, b, (i + 1) as nat, n);
                    }
                    return None;
                },
                Some(t) => {
                    out.push(t);
                    assert(out.deep_view() =~= capture_texts(mv, name@, b, i as nat).unwrap().push(t@));
                },
            }
        }
        i = i + 1;
    }
    Some(out)
}

proof fn lemma_texts_stay_none(m: MatchView, name: Seq<char>, b: Seq<u8>, k: nat, n: nat)
    requires
        k <= n,
        capture_texts(m, name, b, k) is None,
    ensures
        capture_texts(m, name, b, n) is None,
    decreases n - k,
{
    if k < n {
        lemma_texts_stay_none(m, name, b, k, (n - 1) as nat);
    }
}

} // verus!
