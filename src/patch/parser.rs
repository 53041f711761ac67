//! `Parser<P>`: a source text with the matches of the query of the
//! declaration kind `P`, and the find, shadow and delete operations on it.

use vstd::prelude::*;
use core::marker::PhantomData;
use core::ops::Range;
use crate::edit::{inserted, removed, utf8};
use crate::patterns::Pattern;
use crate::query::{go_query_matches, run_go_query, Capture, MatchView};

verus! {

/// Index of the first match at or after `i` that reads as a declaration
/// whose identity is `key`.
pub open spec fn first_hit<P: Pattern>(
    ms: Seq<MatchView>,
    b: Seq<u8>,
    key: Seq<Seq<char>>,
    i: nat,
) -> Option<nat>
    decreases ms.len() - i,
{
    if i >= ms.len() {
        None
    } else if P::key_of(ms[i as int], b) == Some(key) {
        Some(i)
    } else {
        first_hit::<P>(ms, b, key, i + 1)
    }
}

/// What shadowing the first declaration with identity `key` makes of
/// `code`, whose matches are `ms`; `None` where there is none.
pub open spec fn shadow_outcome<P: Pattern>(
    code: Seq<char>,
    ms: Seq<MatchView>,
    key: Seq<Seq<char>>,
) -> Option<Seq<char>> {
    let b = utf8(code);
    match first_hit::<P>(ms, b, key, 0) {
        None => None,
        Some(i) => match P::name_span(ms[i as int], b) {
            Some(s) => Some(inserted(code, s.1, P::spec_suffix())),
            None => None,
        },
    }
}

/// What deleting the first declaration with identity `key` makes of
/// `code`, whose matches are `ms`; `None` where there is none.
pub open spec fn delete_outcome<P: Pattern>(
    code: Seq<char>,
    ms: Seq<MatchView>,
    key: Seq<Seq<char>>,
) -> Option<Seq<char>> {
    let b = utf8(code);
    match first_hit::<P>(ms, b, key, 0) {
        None => None,
        Some(i) => match P::decl_span(ms[i as int], b) {
            Some(s) => Some(removed(code, s.0, s.1)),
            None => None,
        },
    }
}

/// A source text together with the matches of the query of `P` over it.
pub struct Parser<P> {
    code: String,
    matches: Vec<Vec<Capture>>,
    _pattern: PhantomData<P>,
}

impl<P: Pattern> Parser<P> {
    /// The source text.
    pub closed spec fn code_view(&self) -> Seq<char> {
        self.code@
    }

    /// The matches of the query of `P` over the source text.
    pub closed spec fn matches_view(&self) -> Seq<MatchView> {
        self.matches.deep_view()
    }

    /// Parses `code` and runs the query of `P` over it; `None` where the
    /// query cannot run.
    pub fn new(code: &str) -> (r: Option<Self>)
        ensures
            r is Some <==> go_query_matches(code@, P::spec_query()) is Some,
            r matches Some(p) ==> p.code_view() == code@,
            r matches Some(p) ==> go_query_matches(code@, P::spec_query()) == Some(
                p.matches_view(),
            ),
    {
        let matches = run_go_query(code, P::sexp())?;
        Some(Parser { code: code.to_owned(), matches, _pattern: PhantomData })
    }

    /// The declaration of the first match, if there is a match.
    pub fn find_first_match(&self) -> (r: Option<P>)
        ensures
            r is Some <==> (self.matches_view().len() > 0 && P::key_of(
                self.matches_view()[0],
                utf8(self.code_view()),
            ) is Some),
            r matches Some(p) ==> p.describes(self.matches_view()[0], utf8(self.code_view())),
            r matches Some(p) ==> P::key_of(self.matches_view()[0], utf8(self.code_view()))
                == Some(p.key()),
    {
        if self.matches.len() == 0 {
            return None;
        }
        P::from_match(&self.matches[0], self.code.as_str())
    }

    /// The byte range of the last capture of the last match.
    pub fn find_next_line(&self) -> (r: Option<Range<usize>>)
        ensures
            r is Some <==> (self.matches_view().len() > 0
                && self.matches_view().last().len() > 0),
            r matches Some(range) ==> range.start == self.matches_view().last().last().1
                && range.end == self.matches_view().last().last().2,
    {
        let n = self.matches.len();
        if n == 0 {
            return None;
        }
        let last = &self.matches[n - 1];
        let k = last.len();
        if k == 0 {
            return None;
        }
        assert(self.matches_view().last() == last.deep_view());
        assert(last.deep_view().last() == last[k - 1].deep_view());
        Some(Range { start: last[k - 1].start, end: last[k - 1].end })
    }

    /// Index of the first match that reads as `target`.
    fn first_hit_index(&self, target: &P) -> (r: Option<usize>)
        ensures
            r matches Some(i) ==> i < self.matches@.len(),
            r matches Some(i) ==> first_hit::<P>(
                self.matches_view(),
                utf8(self.code_view()),
                target.key(),
                0,
            ) == Some(i as nat),
            r is None ==> first_hit::<P>(
                self.matches_view(),
                utf8(self.code_view()),
                target.key(),
                0,
            ) is None,
    {
        let ghost ms = self.matches_view();
        let ghost b = utf8(self.code_view());
        let mut i: usize = 0;
        while i < self.matches.len()
            invariant
                i <= self.matches.len(),
                ms == self.matches_view(),
                b == utf8(self.code_view()),
                ms.len() == self.matches.len(),
                first_hit::<P>(ms, b, target.key(), 0) == first_hit::<P>(
                    ms,
                    b,
                    target.key(),
                    i as nat,
                ),
            decreases self.matches.len() - i,
        {
            assert(ms[i as int] == self.matches[i as int].deep_view());
            match P::from_match(&self.matches[i], self.code.as_str()) {
                Some(p) => {
                    if p.is_match(target) {
                        return Some(i);
                    }
                },
                None => {},
            }
            i = i + 1;
        }
        None
    }

    /// Shadows the first declaration that is the same one as `target`:
    /// its identifier gets the suffix of `P`. `None` where there is none.
    pub fn find_and_patch(&self, target: &P) -> (r: Option<String>)
        ensures
            r.deep_view() == shadow_outcome::<P>(
                self.code_view(),
                self.matches_view(),
                target.key(),
            ),
    {
        match self.first_hit_index(target) {
            None => None,
            Some(i) => {
                assert(self.matches_view()[i as int] == self.matches[i as int].deep_view());
                P::append_suffix(&self.matches[i], self.code.as_str())
            },
        }
    }

    /// Deletes the first declaration that is the same one as `target`.
    /// `None` where there is none.
    pub fn find_and_delete(&self, target: &P) -> (r: Option<String>)
        ensures
            r.deep_view() == delete_outcome::<P>(
                self.code_view(),
                self.matches_view(),
                target.key(),
            ),
    {
        match self.first_hit_index(target) {
            None => None,
            Some(i) => {
                assert(self.matches_view()[i as int] == self.matches[i as int].deep_view());
                P::delete(&self.matches[i], self.code.as_str())
            },
        }
    }
}

} // verus!
