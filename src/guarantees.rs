//! What the edits guarantee across operations: shadowing renames only,
//! deletion removes only its span, identity is an equivalence, disjoint edits
//! commute, and imports go right after the package name.

use vstd::prelude::*;
use vstd::utf8::*;
use crate::edit::{inserted, lemma_boundary_in_piece, lemma_utf8_concat, removed, span_text, text_after, text_before, utf8, valid_span};
use crate::engine::package_of;
use crate::patch::parser::{delete_outcome, first_hit, shadow_outcome};
use crate::patterns::func_decl::FunctionDeclPattern;
use crate::patterns::method_decl::MethodDeclPattern;
use crate::patterns::module_decl::ModuleDeclPattern;
use crate::patterns::Pattern;
use crate::query::{go_query_matches, required_text, MatchView};

verus! {

/// The encoding of the text before a boundary is the prefix of the encoding.
proof fn lemma_before_bytes(code: Seq<char>, at: int)
    requires
        0 <= at <= utf8(code).len(),
        is_char_boundary(utf8(code), at),
    ensures
        utf8(text_before(code, at)) == utf8(code).subrange(0, at),
        utf8(text_after(code, at)) == utf8(code).subrange(at, utf8(code).len() as int),
{
    let b = utf8(code);
    encode_utf8_valid_utf8(code);
    valid_utf8_split(b, at);
    decode_utf8_encode_utf8(b.subrange(0, at));
    decode_utf8_encode_utf8(b.subrange(at, b.len() as int));
}

/// Shadowing a declaration changes its identifier alone: the bytes before
/// the identifier stay, the identifier becomes the old identifier followed by
/// the suffix of its kind, and everything after it (parameters, result, body
/// and the rest of the file) follows unchanged.
pub proof fn lemma_shadow_renames_only<P: Pattern>(
    code: Seq<char>,
    ms: Seq<MatchView>,
    key: Seq<Seq<char>>,
)
    requires
        shadow_outcome::<P>(code, ms, key) is Some,
    ensures
        ({
            let b = utf8(code);
            let i = first_hit::<P>(ms, b, key, 0).unwrap();
            let s = P::name_span(ms[i as int], b).unwrap();
            let old_ident = b.subrange(s.0, s.1);
            &&& valid_span(b, s.0, s.1)
            &&& utf8(shadow_outcome::<P>(code, ms, key).unwrap()) == b.subrange(0, s.0) + (
            old_ident + utf8(P::spec_suffix())) + b.subrange(s.1, b.len() as int)
        }),
{
    let b = utf8(code);
    let i = first_hit::<P>(ms, b, key, 0).unwrap();
    let s = P::name_span(ms[i as int], b).unwrap();
    P::lemma_spans_valid(ms[i as int], b);
    lemma_before_bytes(code, s.1);
    let t = inserted(code, s.1, P::spec_suffix());
    lemma_utf8_concat(text_before(code, s.1), P::spec_suffix());
    lemma_utf8_concat(text_before(code, s.1) + P::spec_suffix(), text_after(code, s.1));
    assert(b.subrange(0, s.1) =~= b.subrange(0, s.0) + b.subrange(s.0, s.1));
}

/// Deleting a declaration removes exactly its span: the bytes before it and
/// the bytes after it, blank lines included, stay as they were.
pub proof fn lemma_delete_removes_span<P: Pattern>(
    code: Seq<char>,
    ms: Seq<MatchView>,
    key: Seq<Seq<char>>,
)
    requires
        delete_outcome::<P>(code, ms, key) is Some,
    ensures
        ({
            let b = utf8(code);
            let i = first_hit::<P>(ms, b, key, 0).unwrap();
            let s = P::decl_span(ms[i as int], b).unwrap();
            &&& valid_span(b, s.0, s.1)
            &&& utf8(delete_outcome::<P>(code, ms, key).unwrap()) == b.subrange(0, s.0)
                + b.subrange(s.1, b.len() as int)
        }),
{
    let b = utf8(code);
    let i = first_hit::<P>(ms, b, key, 0).unwrap();
    let s = P::decl_span(ms[i as int], b).unwrap();
    P::lemma_spans_valid(ms[i as int], b);
    lemma_before_bytes(code, s.0);
    lemma_before_bytes(code, s.1);
    lemma_utf8_concat(text_before(code, s.0), text_after(code, s.1));
}

/// Whether two declarations are the same one is an equivalence, for every
/// kind: each is the same as itself, and the relation is symmetric and
/// transitive.
pub proof fn lemma_identity_is_equivalence<P: Pattern>(a: P, c: P, d: P)
    ensures
        a.key() == a.key(),
        (a.key() == c.key()) == (c.key() == a.key()),
        a.key() == c.key() && c.key() == d.key() ==> a.key() == d.key(),
{
}

/// Two function declarations read from any two matches, over any two
/// texts, are the same one exactly when their names are: parameters,
/// results and bodies take no part.
pub proof fn lemma_function_identity_is_name(m1: MatchView, b1: Seq<u8>, m2: MatchView, b2: Seq<u8>)
    requires
        FunctionDeclPattern::key_of(m1, b1) is Some,
        FunctionDeclPattern::key_of(m2, b2) is Some,
    ensures
        (FunctionDeclPattern::key_of(m1, b1) == FunctionDeclPattern::key_of(m2, b2)) == (
        required_text(m1, "name"@, b1) == required_text(m2, "name"@, b2)),
{
    let k1 = FunctionDeclPattern::key_of(m1, b1).unwrap();
    let k2 = FunctionDeclPattern::key_of(m2, b2).unwrap();
    if k1 == k2 {
        assert(k1[0] == k2[0]);
    }
    if required_text(m1, "name"@, b1) == required_text(m2, "name"@, b2) {
        assert(k1 =~= k2);
    }
}

/// Two method declarations read from any two matches, over any two texts,
/// are the same one exactly when their names and their receiver types are.
pub proof fn lemma_method_identity_is_name_and_receiver(
    m1: MatchView,
    b1: Seq<u8>,
    m2: MatchView,
    b2: Seq<u8>,
)
    requires
        MethodDeclPattern::key_of(m1, b1) is Some,
        MethodDeclPattern::key_of(m2, b2) is Some,
    ensures
        (MethodDeclPattern::key_of(m1, b1) == MethodDeclPattern::key_of(m2, b2)) == (
        required_text(m1, "name"@, b1) == required_text(m2, "name"@, b2) && required_text(
            m1,
            "receiver"@,
            b1,
        ) == required_text(m2, "receiver"@, b2)),
{
    let k1 = MethodDeclPattern::key_of(m1, b1).unwrap();
    let k2 = MethodDeclPattern::key_of(m2, b2).unwrap();
    if k1 == k2 {
        assert(k1[0] == k2[0]);
        assert(k1[1] == k2[1]);
    }
    if required_text(m1, "name"@, b1) == required_text(m2, "name"@, b2) && required_text(
        m1,
        "receiver"@,
        b1,
    ) == required_text(m2, "receiver"@, b2) {
        assert(k1 =~= k2);
    }
}

/// `code` with the bytes `[start, end)` replaced by `t`. Shadowing is the
/// empty span at the identifier's end replaced by the suffix; deletion is
/// the declaration's span replaced by nothing.
pub open spec fn spliced(code: Seq<char>, start: int, end: int, t: Seq<char>) -> Seq<char> {
    text_before(code, start) + t + text_after(code, end)
}

/// Shadowing and deleting are splices.
pub proof fn lemma_edits_are_splices(code: Seq<char>, at: int, start: int, end: int, t: Seq<char>)
    ensures
        inserted(code, at, t) == spliced(code, at, at, t),
        removed(code, start, end) == spliced(code, start, end, Seq::empty()),
{
    assert(removed(code, start, end) =~= spliced(code, start, end, Seq::empty()));
}

proof fn lemma_splice_bytes(code: Seq<char>, start: int, end: int, t: Seq<char>)
    requires
        valid_span(utf8(code), start, end),
    ensures
        utf8(spliced(code, start, end, t)) == utf8(code).subrange(0, start) + utf8(t)
            + utf8(code).subrange(end, utf8(code).len() as int),
{
    lemma_before_bytes(code, start);
    lemma_before_bytes(code, end);
    lemma_utf8_concat(text_before(code, start), t);
    lemma_utf8_concat(text_before(code, start) + t, text_after(code, end));
}

proof fn lemma_boundary_concat(x: Seq<u8>, y: Seq<u8>, i: int, j: int)
    requires
        valid_utf8(x),
        valid_utf8(y),
    ensures
        0 <= i <= x.len() && is_char_boundary(x, i) ==> is_char_boundary(x + y, i),
        0 <= j <= y.len() && is_char_boundary(y, j) ==> is_char_boundary(x + y, x.len() + j),
{
    broadcast use valid_utf8_concat, is_char_boundary_start_end_of_seq,
        is_char_boundary_iff_not_is_continuation_byte;

    valid_utf8_concat(x, y);
    let z = x + y;
    if 0 <= i <= x.len() && is_char_boundary(x, i) {
        if i < x.len() {
            is_char_boundary_iff_not_is_continuation_byte(x, i);
            is_char_boundary_iff_not_is_continuation_byte(z, i);
        } else if y.len() == 0 {
            assert(z =~= x);
        } else {
            is_char_boundary_start_end_of_seq(y);
            is_char_boundary_iff_not_is_continuation_byte(y, 0);
            is_char_boundary_iff_not_is_continuation_byte(z, i);
        }
    }
    if 0 <= j <= y.len() && is_char_boundary(y, j) {
        if j == y.len() {
            is_char_boundary_start_end_of_seq(z);
        } else {
            is_char_boundary_iff_not_is_continuation_byte(y, j);
            is_char_boundary_iff_not_is_continuation_byte(z, x.len() + j);
        }
    }
}

/// The five pieces that two disjoint edits leave: the text before the
/// first span, `t1`, the text between the spans, `t2`, the text after.
pub open spec fn two_edits_bytes(
    b: Seq<u8>,
    s1: int,
    e1: int,
    t1: Seq<char>,
    s2: int,
    e2: int,
    t2: Seq<char>,
) -> Seq<u8> {
    b.subrange(0, s1) + utf8(t1) + b.subrange(e1, s2) + utf8(t2) + b.subrange(e2, b.len() as int)
}

proof fn lemma_second_then_first(
    code: Seq<char>,
    s1: int,
    e1: int,
    t1: Seq<char>,
    s2: int,
    e2: int,
    t2: Seq<char>,
)
    requires
        valid_span(utf8(code), s1, e1),
        valid_span(utf8(code), s2, e2),
        e1 <= s2,
    ensures
        utf8(spliced(spliced(code, s2, e2, t2), s1, e1, t1)) == two_edits_bytes(
            utf8(code),
            s1,
            e1,
            t1,
            s2,
            e2,
            t2,
        ),
{
    let b = utf8(code);
    let n = b.len() as int;
    let c2 = spliced(code, s2, e2, t2);
    lemma_splice_bytes(code, s2, e2, t2);
    let b2 = utf8(c2);
    encode_utf8_valid_utf8(code);
    encode_utf8_valid_utf8(t2);
    encode_utf8_valid_utf8(c2);
    valid_utf8_split(b, s2);
    valid_utf8_split(b, e2);
    lemma_boundary_in_piece(b, s2, s1);
    lemma_boundary_in_piece(b, s2, e1);
    valid_utf8_concat(utf8(t2), b.subrange(e2, n));
    assert(b2 =~= b.subrange(0, s2) + (utf8(t2) + b.subrange(e2, n)));
    lemma_boundary_concat(b.subrange(0, s2), utf8(t2) + b.subrange(e2, n), s1, 0);
    lemma_boundary_concat(b.subrange(0, s2), utf8(t2) + b.subrange(e2, n), e1, 0);
    lemma_splice_bytes(c2, s1, e1, t1);
    assert(utf8(spliced(c2, s1, e1, t1)) =~= two_edits_bytes(b, s1, e1, t1, s2, e2, t2));
}

proof fn lemma_first_then_second(
    code: Seq<char>,
    s1: int,
    e1: int,
    t1: Seq<char>,
    s2: int,
    e2: int,
    t2: Seq<char>,
)
    requires
        valid_span(utf8(code), s1, e1),
        valid_span(utf8(code), s2, e2),
        e1 <= s2,
    ensures
        ({
            let d = utf8(t1).len() - (e1 - s1);
            utf8(spliced(spliced(code, s1, e1, t1), s2 + d, e2 + d, t2)) == two_edits_bytes(
                utf8(code),
                s1,
                e1,
                t1,
                s2,
                e2,
                t2,
            )
        }),
{
    let b = utf8(code);
    let n = b.len() as int;
    let d = utf8(t1).len() - (e1 - s1);
    let c1 = spliced(code, s1, e1, t1);
    lemma_splice_bytes(code, s1, e1, t1);
    let b1 = utf8(c1);
    encode_utf8_valid_utf8(code);
    encode_utf8_valid_utf8(t1);
    encode_utf8_valid_utf8(c1);
    valid_utf8_split(b, s1);
    valid_utf8_split(b, e1);
    lemma_boundary_in_piece(b, e1, s2);
    lemma_boundary_in_piece(b, e1, e2);
    valid_utf8_concat(b.subrange(0, s1), utf8(t1));
    assert(b1 =~= (b.subrange(0, s1) + utf8(t1)) + b.subrange(e1, n));
    lemma_boundary_concat(b.subrange(0, s1) + utf8(t1), b.subrange(e1, n), 0, s2 - e1);
    lemma_boundary_concat(b.subrange(0, s1) + utf8(t1), b.subrange(e1, n), 0, e2 - e1);
    lemma_splice_bytes(c1, s2 + d, e2 + d, t2);
    assert(utf8(spliced(c1, s2 + d, e2 + d, t2)) =~= two_edits_bytes(b, s1, e1, t1, s2, e2, t2));
}

/// Edits of two disjoint spans commute: replacing `[s1, e1)` by `t1` and
/// `[s2, e2)` by `t2`, with the first span before the second, gives the same
/// text in either order, once the second span is shifted by what the first
/// edit added or took away.
pub proof fn lemma_disjoint_edits_commute(
    code: Seq<char>,
    s1: int,
    e1: int,
    t1: Seq<char>,
    s2: int,
    e2: int,
    t2: Seq<char>,
)
    requires
        valid_span(utf8(code), s1, e1),
        valid_span(utf8(code), s2, e2),
        e1 <= s2,
    ensures
        ({
            let d = utf8(t1).len() - (e1 - s1);
            spliced(spliced(code, s2, e2, t2), s1, e1, t1) == spliced(
                spliced(code, s1, e1, t1),
                s2 + d,
                e2 + d,
                t2,
            )
        }),
{
    let d = utf8(t1).len() - (e1 - s1);
    let left = spliced(spliced(code, s2, e2, t2), s1, e1, t1);
    let right = spliced(spliced(code, s1, e1, t1), s2 + d, e2 + d, t2);
    lemma_second_then_first(code, s1, e1, t1, s2, e2, t2);
    lemma_first_then_second(code, s1, e1, t1, s2, e2, t2);
    encode_utf8_decode_utf8(left);
    encode_utf8_decode_utf8(right);
}

/// Where the package query finds one package clause, the span where import
/// blocks go is the span of the package name: it starts and ends at
/// character boundaries and holds the name that patching reports.
pub proof fn lemma_safe_range_is_package_name(code: Seq<char>)
    requires
        go_query_matches(code, ModuleDeclPattern::spec_query()) matches Some(ms) && ms.len() == 1
            && ms[0].len() == 1,
        package_of(code) is Ok,
    ensures
        ({
            let (name, r) = package_of(code).unwrap();
            &&& valid_span(utf8(code), r.0 as int, r.1 as int)
            &&& span_text(utf8(code), r.0 as int, r.1 as int) == name
        }),
{
    let ms = go_query_matches(code, ModuleDeclPattern::spec_query()).unwrap();
    assert(ms.last() == ms[0]);
    assert(ms[0].last() == ms[0][0]);
    assert(crate::query::capture_index_from(ms[0], "package"@, 1) is None);
}

} // verus!
