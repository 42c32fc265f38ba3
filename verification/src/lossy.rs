//! Bytes read as text, where some may be no text.
use vstd::prelude::*;
use vstd::utf8;

verus! {

/// Bytes read as text, with replacement characters in place of what is no UTF-8.
pub uninterp spec fn lossy_text(bytes: Seq<u8>) -> Seq<char>;

/// `String::from_utf8_lossy`: the bytes read as text. What is no UTF-8 is
/// replaced, by rules that are left to the name; bytes that are UTF-8 are read as
/// they are.
#[verifier::external_body]
pub(crate) fn read_lossy(bytes: &[u8]) -> (r: String)
    ensures
        r@ == lossy_text(bytes@),
        utf8::valid_utf8(bytes@) ==> r@ == utf8::decode_utf8(bytes@),
{
    String::from_utf8_lossy(bytes).into_owned()
}

/// Two pieces of UTF-8 read as one.
pub proof fn lemma_decode_sum(one: Seq<u8>, other: Seq<u8>)
    requires
        utf8::valid_utf8(one),
        utf8::valid_utf8(other),
    ensures
        utf8::valid_utf8(one + other),
        utf8::decode_utf8(one + other) == utf8::decode_utf8(one) + utf8::decode_utf8(other),
    decreases one.len(),
{
    utf8::valid_utf8_concat(one, other);
    if one.len() == 0 {
        assert(one + other =~= other);
        assert(utf8::decode_utf8(one) =~= Seq::<char>::empty());
    } else {
        let rest = utf8::pop_first_scalar(one);
        assert(utf8::pop_first_scalar(one + other) =~= rest + other);
        lemma_decode_sum(rest, other);
    }
}

} // verus!
