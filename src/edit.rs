//! Byte-range edits on UTF-8 text.
//!
//! Offsets are byte offsets into the UTF-8 encoding of a text, as a syntax
//! tree reports them; an edit is only made at character boundaries.

use vstd::prelude::*;
use vstd::utf8::*;
use vstd::string::*;

verus! {

broadcast use encode_utf8_decode_utf8, encode_utf8_valid_utf8;

/// The UTF-8 encoding of a text.
pub open spec fn utf8(s: Seq<char>) -> Seq<u8> {
    encode_utf8(s)
}

/// `[start, end)` is a span of the encoding `b` that starts and ends at
/// character boundaries.
pub open spec fn valid_span(b: Seq<u8>, start: int, end: int) -> bool {
    &&& 0 <= start <= end <= b.len()
    &&& is_char_boundary(b, start)
    &&& is_char_boundary(b, end)
}

/// The text held by the bytes `[start, end)` of `b`.
pub open spec fn span_text(b: Seq<u8>, start: int, end: int) -> Seq<char> {
    decode_utf8(b.subrange(start, end))
}

/// The text of `s` before the byte offset `at`.
pub open spec fn text_before(s: Seq<char>, at: int) -> Seq<char> {
    span_text(utf8(s), 0, at)
}

/// The text of `s` from the byte offset `at` on.
pub open spec fn text_after(s: Seq<char>, at: int) -> Seq<char> {
    span_text(utf8(s), at, utf8(s).len() as int)
}

/// `s` with `ins` put in at the byte offset `at`.
pub open spec fn inserted(s: Seq<char>, at: int, ins: Seq<char>) -> Seq<char> {
    text_before(s, at) + ins + text_after(s, at)
}

/// `s` without the bytes `[start, end)`.
pub open spec fn removed(s: Seq<char>, start: int, end: int) -> Seq<char> {
    text_before(s, start) + text_after(s, end)
}

/// Encoding distributes over concatenation.
pub proof fn lemma_utf8_concat(a: Seq<char>, b: Seq<char>)
    ensures
        utf8(a + b) == utf8(a) + utf8(b),
    decreases a.len(),
{
    if a.len() == 0 {
        assert(a + b =~= b);
    } else {
        lemma_utf8_concat(a.drop_first(), b);
        assert((a + b).drop_first() =~= a.drop_first() + b);
        assert((a + b)[0] == a[0]);
    }
}

/// A boundary of `b` inside a prefix or a suffix of `b` that is cut at a
/// boundary is a boundary of that piece too.
pub proof fn lemma_boundary_in_piece(b: Seq<u8>, cut: int, i: int)
    requires
        valid_utf8(b),
        is_char_boundary(b, cut),
        is_char_boundary(b, i),
        0 <= cut <= b.len(),
        0 <= i <= b.len(),
    ensures
        i <= cut ==> is_char_boundary(b.subrange(0, cut), i),
        cut <= i ==> is_char_boundary(b.subrange(cut, b.len() as int), i - cut),
{
    broadcast use valid_utf8_split, is_char_boundary_start_end_of_seq,
        is_char_boundary_iff_not_is_continuation_byte;

    let pre = b.subrange(0, cut);
    let post = b.subrange(cut, b.len() as int);
    valid_utf8_split(b, cut);
    if i <= cut {
        if i == cut {
            is_char_boundary_start_end_of_seq(pre);
        } else if i > 0 {
            is_char_boundary_iff_not_is_continuation_byte(b, i);
            is_char_boundary_iff_not_is_continuation_byte(pre, i);
        }
    }
    if cut <= i {
        if i == b.len() {
            is_char_boundary_start_end_of_seq(post);
        } else if i == cut {
            is_char_boundary_start_end_of_seq(post);
        } else {
            is_char_boundary_iff_not_is_continuation_byte(b, i);
            is_char_boundary_iff_not_is_continuation_byte(post, i - cut);
        }
    }
}

/// The text held by the bytes `[start, end)` of `s`, when that span starts
/// and ends at character boundaries.
pub fn slice_text(s: &str, start: usize, end: usize) -> (r: Option<String>)
    ensures
        r is Some <==> valid_span(utf8(s@), start as int, end as int),
        r matches Some(t) ==> t@ == span_text(utf8(s@), start as int, end as int),
        r matches Some(t) ==> utf8(t@) == utf8(s@).subrange(start as int, end as int),
{
    let n = s.as_bytes().len();
    if start > end || end > n {
        return None;
    }
    let ok_start = s.is_char_boundary(start);
    let ok_end = s.is_char_boundary(end);
    if !ok_start || !ok_end {
        return None;
    }
    let ghost b = utf8(s@);
    proof {
        lemma_boundary_in_piece(b, end as int, start as int);
    }
    let (head, _) = s.split_at(end);
    let (_, mid) = head.split_at(start);
    proof {
        assert(mid.spec_bytes() =~= b.subrange(start as int, end as int));
    }
    Some(mid.to_owned())
}

/// `s` with `ins` put in at the byte offset `at`.
pub fn insert_text(s: &str, at: usize, ins: &str) -> (r: String)
    requires
        is_char_boundary(utf8(s@), at as int),
    ensures
        r@ == inserted(s@, at as int, ins@),
{
    let (head, tail) = s.split_at(at);
    let mut r = head.to_owned();
    r.append(ins);
    r.append(tail);
    r
}

/// `s` without the bytes `[start, end)`.
pub fn remove_span(s: &str, start: usize, end: usize) -> (r: String)
    requires
        valid_span(utf8(s@), start as int, end as int),
    ensures
        r@ == removed(s@, start as int, end as int),
{
    let (head, _) = s.split_at(start);
    let (_, tail) = s.split_at(end);
    let mut r = head.to_owned();
    r.append(tail);
    r
}

} // verus!

verus! {

/// Whether two texts are equal.
pub fn same_text(a: &str, b: &str) -> (r: bool)
    ensures
        r == (a@ == b@),
{
    a.to_owned() == b.to_owned()
}

} // verus!
