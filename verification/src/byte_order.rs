//! The order of texts: lexicographic by the bytes of their UTF-8 encoding.
use vstd::prelude::*;
use vstd::string::*;
use vstd::utf8::*;

verus! {

/// Whether `a`, read from position `i` on, comes strictly before `b` read from there on.
pub open spec fn bytes_less(a: Seq<u8>, b: Seq<u8>, i: int) -> bool
    decreases b.len() - i,
{
    if i >= b.len() {
        false
    } else if i >= a.len() {
        true
    } else if a[i] != b[i] {
        a[i] < b[i]
    } else {
        bytes_less(a, b, i + 1)
    }
}

/// Whether the text `a` comes strictly before the text `b`.
pub open spec fn text_less(a: Seq<char>, b: Seq<char>) -> bool {
    bytes_less(encode_utf8(a), encode_utf8(b), 0)
}

proof fn lemma_bytes_less_irreflexive(a: Seq<u8>, i: int)
    ensures
        !bytes_less(a, a, i),
    decreases a.len() - i,
{
    if i < a.len() {
        lemma_bytes_less_irreflexive(a, i + 1);
    }
}

proof fn lemma_bytes_less_transitive(a: Seq<u8>, b: Seq<u8>, c: Seq<u8>, i: int)
    requires
        bytes_less(a, b, i),
        bytes_less(b, c, i),
    ensures
        bytes_less(a, c, i),
    decreases c.len() - i,
{
    if i < a.len() && a[i] == b[i] && b[i] == c[i] {
        lemma_bytes_less_transitive(a, b, c, i + 1);
    }
}

proof fn lemma_bytes_less_total(a: Seq<u8>, b: Seq<u8>, i: int)
    requires
        0 <= i <= a.len(),
        i <= b.len(),
        !bytes_less(a, b, i),
        !bytes_less(b, a, i),
    ensures
        a.skip(i) == b.skip(i),
    decreases b.len() - i,
{
    if i < a.len() && i < b.len() {
        lemma_bytes_less_total(a, b, i + 1);
        assert(a.skip(i) =~= seq![a[i]] + a.skip(i + 1));
        assert(b.skip(i) =~= seq![b[i]] + b.skip(i + 1));
    } else {
        assert(a.skip(i) =~= b.skip(i));
    }
}

/// No text comes before itself.
pub proof fn lemma_text_less_irreflexive(a: Seq<char>)
    ensures
        !text_less(a, a),
{
    lemma_bytes_less_irreflexive(encode_utf8(a), 0);
}

/// The order of texts is transitive.
pub proof fn lemma_text_less_transitive(a: Seq<char>, b: Seq<char>, c: Seq<char>)
    requires
        text_less(a, b),
        text_less(b, c),
    ensures
        text_less(a, c),
{
    lemma_bytes_less_transitive(encode_utf8(a), encode_utf8(b), encode_utf8(c), 0);
}

/// Two texts of which neither comes before the other are the same text.
pub proof fn lemma_text_less_total(a: Seq<char>, b: Seq<char>)
    requires
        !text_less(a, b),
        !text_less(b, a),
    ensures
        a == b,
{
    lemma_bytes_less_total(encode_utf8(a), encode_utf8(b), 0);
    assert(encode_utf8(a).skip(0) =~= encode_utf8(a));
    assert(encode_utf8(b).skip(0) =~= encode_utf8(b));
    encode_utf8_decode_utf8(a);
    encode_utf8_decode_utf8(b);
}

/// Whether the text `a` comes strictly before the text `b`.
pub fn text_before(a: &str, b: &str) -> (r: bool)
    ensures
        r == text_less(a@, b@),
{
    let left = a.as_bytes();
    let right = b.as_bytes();
    let mut i: usize = 0;
    while i < right.len()
        invariant
            i <= right.len(),
            i <= left.len(),
            left@ == encode_utf8(a@),
            right@ == encode_utf8(b@),
            bytes_less(left@, right@, 0) == bytes_less(left@, right@, i as int),
        decreases right.len() - i,
    {
        if i >= left.len() {
            return true;
        }
        if left[i] != right[i] {
            return left[i] < right[i];
        }
        i += 1;
    }
    false
}

} // verus!
