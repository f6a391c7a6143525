//! Lexicographic order, of texts by character and of byte strings by byte.

use vstd::prelude::*;

use crate::text::chars_of;

verus! {

/// Whether `a` stands before `b` in lexicographic order.
pub open spec fn lex_lt(a: Seq<int>, b: Seq<int>) -> bool
    decreases a.len(),
{
    if b.len() == 0 {
        false
    } else if a.len() == 0 {
        true
    } else if a[0] != b[0] {
        a[0] < b[0]
    } else {
        lex_lt(a.skip(1), b.skip(1))
    }
}

/// The code points of a text.
pub open spec fn codes(s: Seq<char>) -> Seq<int> {
    Seq::new(s.len(), |i: int| s[i] as int)
}

/// The values of a byte string.
pub open spec fn byte_codes(s: Seq<u8>) -> Seq<int> {
    Seq::new(s.len(), |i: int| s[i] as int)
}

/// Whether a text stands before another, compared character by character.
pub open spec fn text_lt(a: Seq<char>, b: Seq<char>) -> bool {
    lex_lt(codes(a), codes(b))
}

/// Whether a byte string stands before another, compared byte by byte.
pub open spec fn bytes_lt(a: Seq<u8>, b: Seq<u8>) -> bool {
    lex_lt(byte_codes(a), byte_codes(b))
}

/// No sequence stands before itself.
pub proof fn lemma_lex_irreflexive(a: Seq<int>)
    ensures
        !lex_lt(a, a),
    decreases a.len(),
{
    if a.len() > 0 {
        lemma_lex_irreflexive(a.skip(1));
    }
}

/// The order is transitive.
pub proof fn lemma_lex_transitive(a: Seq<int>, b: Seq<int>, c: Seq<int>)
    requires
        lex_lt(a, b),
        lex_lt(b, c),
    ensures
        lex_lt(a, c),
    decreases a.len(),
{
    if a.len() > 0 && b.len() > 0 && c.len() > 0 && a[0] == b[0] && b[0] == c[0] {
        lemma_lex_transitive(a.skip(1), b.skip(1), c.skip(1));
    }
}

/// Of two different sequences one stands before the other.
pub proof fn lemma_lex_total(a: Seq<int>, b: Seq<int>)
    ensures
        lex_lt(a, b) || lex_lt(b, a) || a == b,
    decreases a.len(),
{
    if a.len() == 0 || b.len() == 0 {
        assert(a.len() == 0 && b.len() == 0 ==> a =~= b);
    } else if a[0] == b[0] {
        lemma_lex_total(a.skip(1), b.skip(1));
        if a.skip(1) == b.skip(1) {
            assert(a =~= seq![a[0]] + a.skip(1));
            assert(b =~= seq![b[0]] + b.skip(1));
        }
    }
}

/// The order of texts is irreflexive, transitive and total.
pub proof fn lemma_text_order(a: Seq<char>, b: Seq<char>, c: Seq<char>)
    ensures
        !text_lt(a, a),
        text_lt(a, b) && text_lt(b, c) ==> text_lt(a, c),
        text_lt(a, b) || text_lt(b, a) || a == b,
{
    lemma_lex_irreflexive(codes(a));
    if text_lt(a, b) && text_lt(b, c) {
        lemma_lex_transitive(codes(a), codes(b), codes(c));
    }
    lemma_lex_total(codes(a), codes(b));
    if codes(a) == codes(b) {
        assert forall|i: int| 0 <= i < a.len() implies a[i] == b[i] by {
            assert(codes(a)[i] == codes(b)[i]);
        }
        assert(a.len() == codes(a).len());
        assert(a =~= b);
    }
}

/// The order of byte strings is irreflexive, transitive and total.
pub proof fn lemma_bytes_order(a: Seq<u8>, b: Seq<u8>, c: Seq<u8>)
    ensures
        !bytes_lt(a, a),
        bytes_lt(a, b) && bytes_lt(b, c) ==> bytes_lt(a, c),
        bytes_lt(a, b) || bytes_lt(b, a) || a == b,
{
    lemma_lex_irreflexive(byte_codes(a));
    if bytes_lt(a, b) && bytes_lt(b, c) {
        lemma_lex_transitive(byte_codes(a), byte_codes(b), byte_codes(c));
    }
    lemma_lex_total(byte_codes(a), byte_codes(b));
    if byte_codes(a) == byte_codes(b) {
        assert forall|i: int| 0 <= i < a.len() implies a[i] == b[i] by {
            assert(byte_codes(a)[i] == byte_codes(b)[i]);
        }
        assert(a.len() == byte_codes(a).len());
        assert(a =~= b);
    }
}

/// Whether a text stands before another.
pub fn text_less(a: &str, b: &str) -> (r: bool)
    ensures
        r == text_lt(a@, b@),
{
    let left = chars_of(a);
    let right = chars_of(b);
    let ghost x = codes(a@);
    let ghost y = codes(b@);
    let mut i: usize = 0;
    assert(x.skip(0) =~= x);
    assert(y.skip(0) =~= y);
    loop
        invariant
            left@ == a@,
            right@ == b@,
            x == codes(a@),
            y == codes(b@),
            i <= left@.len(),
            i <= right@.len(),
            lex_lt(x, y) == lex_lt(x.skip(i as int), y.skip(i as int)),
        decreases left@.len() - i,
    {
        if i == right.len() {
            return false;
        }
        if i == left.len() {
            return true;
        }
        assert(x.skip(i as int)[0] == left@[i as int] as int);
        assert(y.skip(i as int)[0] == right@[i as int] as int);
        if left[i] != right[i] {
            return left[i] < right[i];
        }
        assert(x.skip(i as int).skip(1) =~= x.skip(i + 1));
        assert(y.skip(i as int).skip(1) =~= y.skip(i + 1));
        i += 1;
    }
}

} // verus!
