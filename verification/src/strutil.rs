//! Conversions between `String` values and the byte sequences the editors
//! work on.  The byte-to-string direction goes through one trusted call of
//! `String::from_utf8`; everything else is proved.

use vstd::prelude::*;
use vstd::utf8::{encode_utf8, is_leading_byte_width_1, partial_valid_utf8, valid_utf8};

verus! {

/// All bytes are ASCII (single-byte UTF-8 encodings).
pub open spec fn all_ascii(s: Seq<u8>) -> bool {
    forall|i: int| 0 <= i < s.len() ==> #[trigger] s[i] < 128
}

/// An ASCII byte sequence is valid UTF-8.
pub proof fn lemma_ascii_valid_utf8(s: Seq<u8>)
    requires
        all_ascii(s),
    ensures
        valid_utf8(s),
{
    assert forall|i: int| 0 <= i < s.len() implies is_leading_byte_width_1(#[trigger] s[i]) by {
        let b = s[i];
        assert(b < 128 ==> (b >> 7) == 0) by (bit_vector);
    }
    assert(s.subrange(0, 0) =~= Seq::<u8>::empty());
    assert(partial_valid_utf8(s, 0));
    vstd::utf8::partial_valid_utf8_extend_ascii_block(s, 0, s.len() as int);
    assert(s.subrange(0, s.len() as int) =~= s);
}

/// Relies on `String::from_utf8`: it succeeds exactly on valid UTF-8 input
/// and the returned string's encoding is the input bytes.
#[verifier::external_body]
fn string_from_utf8(v: Vec<u8>) -> (r: Option<String>)
    ensures
        r matches Some(s) ==> encode_utf8(s@) == v@,
        valid_utf8(v@) ==> r is Some,
{
    String::from_utf8(v).ok()
}

/// Decode UTF-8 bytes into a `String`; `None` when the bytes are not valid
/// UTF-8.
pub fn bytes_to_string(v: Vec<u8>) -> (r: Option<String>)
    ensures
        r matches Some(s) ==> encode_utf8(s@) == v@,
        valid_utf8(v@) ==> r is Some,
{
    string_from_utf8(v)
}

/// Decode known-ASCII bytes into a `String`.
pub fn ascii_to_string(v: Vec<u8>) -> (r: String)
    requires
        all_ascii(v@),
    ensures
        encode_utf8(r@) == v@,
{
    proof {
        lemma_ascii_valid_utf8(v@);
    }
    match string_from_utf8(v) {
        Some(s) => s,
        None => {
            proof {
                assert(false);
            }
            String::new()
        },
    }
}

/// String equality through byte equality: UTF-8 encoding is injective.
pub fn str_eq(a: &str, b: &str) -> (r: bool)
    ensures
        r == (a@ == b@),
{
    let r = crate::bytes::bytes_eq(a.as_bytes(), b.as_bytes());
    proof {
        vstd::utf8::encode_utf8_decode_utf8(a@);
        vstd::utf8::encode_utf8_decode_utf8(b@);
    }
    r
}

/// The bytes of `s`, as a vector.
pub fn str_to_bytes(s: &str) -> (r: Vec<u8>)
    ensures
        r@ == encode_utf8(s@),
{
    vstd::slice::slice_to_vec(s.as_bytes())
}

} // verus!
verus! {

/// Dropping `k` leading ASCII bytes of valid UTF-8 leaves valid UTF-8.
pub proof fn lemma_valid_skip_ascii(s: Seq<u8>, k: int)
    requires
        valid_utf8(s),
        0 <= k <= s.len(),
        forall|j: int| 0 <= j < k ==> #[trigger] s[j] < 128,
    ensures
        valid_utf8(s.skip(k)),
    decreases k,
{
    if k == 0 {
        assert(s.skip(0) =~= s);
    } else {
        let b = s[0];
        assert(b < 128 ==> is_leading_byte_width_1(b)) by (bit_vector);
        assert(vstd::utf8::length_of_first_scalar(s) == 1);
        assert(vstd::utf8::pop_first_scalar(s) =~= s.skip(1));
        assert(valid_utf8(s.skip(1)));
        assert forall|j: int| 0 <= j < k - 1 implies #[trigger] s.skip(1)[j] < 128 by {
            assert(s.skip(1)[j] == s[j + 1]);
        }
        lemma_valid_skip_ascii(s.skip(1), k - 1);
        assert(s.skip(1).skip(k - 1) =~= s.skip(k));
    }
}

/// An ASCII byte is a character boundary of valid UTF-8: splitting there
/// leaves two valid halves.
pub proof fn lemma_split_at_ascii_byte(s: Seq<u8>, i: int)
    requires
        valid_utf8(s),
        0 <= i <= s.len(),
        i < s.len() ==> s[i] < 128,
    ensures
        valid_utf8(s.take(i)),
        valid_utf8(s.skip(i)),
{
    if i == s.len() {
        assert(s.take(i) =~= s);
        assert(s.skip(i) =~= Seq::<u8>::empty());
    } else {
        let b = s[i];
        assert(b < 128 ==> !vstd::utf8::is_continuation_byte(b)) by (bit_vector);
        vstd::utf8::is_char_boundary_iff_not_is_continuation_byte(s, i);
        vstd::utf8::valid_utf8_split(s, i);
        assert(s.subrange(0, i) =~= s.take(i));
        assert(s.subrange(i, s.len() as int) =~= s.skip(i));
    }
}

/// Replacing every occurrence of a nonempty ASCII needle in valid UTF-8
/// with valid UTF-8 yields valid UTF-8.
pub proof fn lemma_replace_all_valid(s: Seq<u8>, needle: Seq<u8>, rep: Seq<u8>)
    requires
        valid_utf8(s),
        valid_utf8(rep),
        needle.len() >= 1,
        all_ascii(needle),
    ensures
        valid_utf8(crate::bytes::spec_replace_all(s, needle, rep)),
    decreases s.len(),
{
    broadcast use vstd::utf8::valid_utf8_concat;

    let i = crate::bytes::spec_find_sub(s, needle) as int;
    if i + needle.len() <= s.len() {
        crate::bytes::lemma_find_sub_match(s, needle);
        assert(s[i] == needle[0]) by {
            assert(s.subrange(i, i + needle.len() as int)[0] == s[i]);
        }
        lemma_split_at_ascii_byte(s, i);
        let tail = s.skip(i);
        assert forall|j: int| 0 <= j < needle.len() implies #[trigger] tail[j] < 128 by {
            assert(tail[j] == s.subrange(i, i + needle.len() as int)[j]);
            assert(all_ascii(needle));
        }
        lemma_valid_skip_ascii(tail, needle.len() as int);
        assert(tail.skip(needle.len() as int) =~= s.skip(i + needle.len() as int));
        lemma_replace_all_valid(s.skip(i + needle.len() as int), needle, rep);
        assert(valid_utf8(s.take(i) + rep));
        assert(valid_utf8(
            (s.take(i) + rep) + crate::bytes::spec_replace_all(
                s.skip(i + needle.len() as int),
                needle,
                rep,
            ),
        ));
        assert(s.take(i) + rep + crate::bytes::spec_replace_all(
            s.skip(i + needle.len() as int),
            needle,
            rep,
        ) =~= (s.take(i) + rep) + crate::bytes::spec_replace_all(
            s.skip(i + needle.len() as int),
            needle,
            rep,
        ));
    }
}

} // verus!
verus! {

/// Splitting valid UTF-8 on an ASCII separator yields valid UTF-8 pieces:
/// the separator byte never sits inside a character's encoding.
pub proof fn lemma_split_pieces_valid(s: Seq<u8>, sep: u8)
    requires
        valid_utf8(s),
        sep < 128,
    ensures
        forall|i: int|
            0 <= i < crate::bytes::spec_split(s, sep).len() ==> valid_utf8(
                #[trigger] crate::bytes::spec_split(s, sep)[i],
            ),
    decreases s.len(),
{
    crate::bytes::lemma_split_first_unfold(s, sep);
    crate::bytes::lemma_find_props(s, sep);
    let f = crate::bytes::spec_find(s, sep) as int;
    let pieces = crate::bytes::spec_split(s, sep);
    if f < s.len() {
        lemma_split_at_ascii_byte(s, f);
        assert(s.skip(f)[0] == s[f]);
        lemma_valid_skip_ascii(s.skip(f), 1);
        assert(s.skip(f).skip(1) =~= s.skip(f + 1));
        lemma_split_pieces_valid(s.skip(f + 1), sep);
        let rest = crate::bytes::spec_split(s.skip(f + 1), sep);
        assert forall|i: int| 0 <= i < pieces.len() implies valid_utf8(#[trigger] pieces[i]) by {
            if i == 0 {
                assert(pieces[0] == s.take(f));
            } else {
                assert(pieces[i] == rest[i - 1]);
            }
        }
    } else {
        assert(pieces[0] == s);
    }
}

} // verus!
