//! UTF-8 encoding of characters.

use vstd::prelude::*;
use vstd::utf8::*;

verus! {

/// The UTF-8 encoding of a concatenation is the concatenation of the
/// encodings.
pub broadcast proof fn lemma_encode_utf8_concat(a: Seq<char>, b: Seq<char>)
    ensures
        #[trigger] encode_utf8(a + b) == encode_utf8(a) + encode_utf8(b),
    decreases a.len(),
{
    if a.len() == 0 {
        assert(a + b =~= b);
        assert(encode_utf8(a) =~= Seq::<u8>::empty());
    } else {
        assert((a + b).drop_first() =~= a.drop_first() + b);
        lemma_encode_utf8_concat(a.drop_first(), b);
        assert((a + b)[0] == a[0]);
    }
}

/// Appending the encoding of `x + y` is appending that of `x`, then that of
/// `y`.
pub broadcast proof fn lemma_append_encoded(w: Seq<u8>, x: Seq<char>, y: Seq<char>)
    ensures
        #[trigger] (w + encode_utf8(x + y)) == (w + encode_utf8(x)) + encode_utf8(y),
{
    lemma_encode_utf8_concat(x, y);
    vstd::seq_lib::lemma_concat_associative(w, encode_utf8(x), encode_utf8(y));
}

/// A text of `n` ASCII characters encodes to `n` bytes.
pub proof fn lemma_ascii_len(t: Seq<char>)
    requires
        forall|i: int| 0 <= i < t.len() ==> (#[trigger] t[i]) as u32 <= 0x7F,
    ensures
        encode_utf8(t).len() == t.len(),
    decreases t.len(),
{
    if t.len() > 0 {
        lemma_ascii_len(t.drop_first());
    }
}

/// The UTF-8 encoding of one character, in the first `r.1` bytes of `r.0`.
pub fn encode_char(c: char) -> (r: ([u8; 4], usize))
    ensures
        r.1 <= 4,
        r.0@.subrange(0, r.1 as int) == encode_utf8(seq![c]),
{
    let v = c as u32;
    proof {
        char_is_scalar(c);
        assert(seq![c].drop_first() =~= Seq::<char>::empty());
        assert(encode_utf8(Seq::<char>::empty()) =~= Seq::<u8>::empty());
        assert(seq![c][0] == c);
        assert(encode_utf8(seq![c]) =~= encode_scalar(v));
    }
    let mut b: [u8; 4] = [0u8; 4];
    if v <= 0x7F {
        b[0] = (#[verifier::truncate] ((v & 0x7F) as u8));
        assert(b@.subrange(0, 1) =~= encode_scalar(v));
        (b, 1)
    } else if v <= 0x7FF {
        b[0] = 0xC0 | (#[verifier::truncate] (((v >> 6) & 0x1F) as u8));
        b[1] = 0x80 | (#[verifier::truncate] ((v & 0x3F) as u8));
        assert(b@.subrange(0, 2) =~= encode_scalar(v));
        (b, 2)
    } else if v <= 0xFFFF {
        b[0] = 0xE0 | (#[verifier::truncate] (((v >> 12) & 0x0F) as u8));
        b[1] = 0x80 | (#[verifier::truncate] (((v >> 6) & 0x3F) as u8));
        b[2] = 0x80 | (#[verifier::truncate] ((v & 0x3F) as u8));
        assert(b@.subrange(0, 3) =~= encode_scalar(v));
        (b, 3)
    } else {
        b[0] = 0xF0 | (#[verifier::truncate] (((v >> 18) & 0x7) as u8));
        b[1] = 0x80 | (#[verifier::truncate] (((v >> 12) & 0x3F) as u8));
        b[2] = 0x80 | (#[verifier::truncate] (((v >> 6) & 0x3F) as u8));
        b[3] = 0x80 | (#[verifier::truncate] ((v & 0x3F) as u8));
        assert(b@.subrange(0, 4) =~= encode_scalar(v));
        (b, 4)
    }
}

} // verus!
