//! Text fields: a fixed run of bytes that holds a NUL-terminated string.

use vstd::prelude::*;
use vstd::utf8::{decode_utf8, encode_utf8_decode_utf8, valid_utf8};
use vstd::string::StringSliceAdditionalSpecFns;
use vstd::slice::slice_subrange;
use vstd::slice::slice_to_vec;

verus! {

/// `i` is the place of the first zero byte of `bytes`.
pub open spec fn is_first_nul(bytes: Seq<u8>, i: int) -> bool {
    &&& 0 <= i < bytes.len()
    &&& bytes[i] == 0
    &&& forall|j: int| 0 <= j < i ==> bytes[j] != 0
}

/// The bytes of `bytes` before its first zero byte, if it has one.
pub open spec fn before_nul(bytes: Seq<u8>) -> Option<Seq<u8>> {
    if exists|i: int| is_first_nul(bytes, i) {
        Some(bytes.subrange(0, choose|i: int| is_first_nul(bytes, i)))
    } else {
        None
    }
}

/// The text that a field holds: the UTF-8 reading of the bytes before the
/// first zero byte. A field without a zero byte, or whose bytes before it
/// are not UTF-8, holds no text.
pub open spec fn text_of(bytes: Seq<u8>) -> Option<Seq<char>> {
    match before_nul(bytes) {
        Some(prefix) => if valid_utf8(prefix) {
            Some(decode_utf8(prefix))
        } else {
            None
        },
        None => None,
    }
}

/// A sequence has at most one first zero byte, and `before_nul` cuts there.
pub proof fn lemma_before_nul(bytes: Seq<u8>, i: int)
    requires
        is_first_nul(bytes, i),
    ensures
        before_nul(bytes) == Some(bytes.subrange(0, i)),
{
    let k = choose|k: int| is_first_nul(bytes, k);
    assert(is_first_nul(bytes, k));
    if k < i {
        assert(bytes[k] != 0);
    } else if i < k {
        assert(bytes[i] != 0);
    }
}

/// A sequence without any zero byte holds no text.
pub proof fn lemma_unterminated(bytes: Seq<u8>)
    requires
        forall|j: int| 0 <= j < bytes.len() ==> bytes[j] != 0,
    ensures
        before_nul(bytes).is_none(),
        text_of(bytes).is_none(),
{
    assert forall|i: int| !is_first_nul(bytes, i) by {
        if 0 <= i < bytes.len() {
            assert(bytes[i] != 0);
        }
    }
}

/// Finds the first zero byte.
pub fn find_nul(bytes: &[u8]) -> (r: Option<usize>)
    ensures
        match r {
            Some(i) => is_first_nul(bytes@, i as int),
            None => forall|j: int| 0 <= j < bytes@.len() ==> bytes@[j] != 0,
        },
{
    let len: usize = bytes.len();
    let mut i: usize = 0;
    while i < len
        invariant
            i <= len,
            len == bytes@.len(),
            forall|j: int| 0 <= j < i ==> bytes@[j] != 0,
        decreases len - i,
    {
        if bytes[i] == 0 {
            return Some(i);
        }
        i = i + 1;
    }
    None
}

/// The bytes `???` and the zero byte that ends them.
pub open spec fn unknown_mark() -> Seq<u8> {
    seq![0x3fu8, 0x3fu8, 0x3fu8, 0u8]
}

/// The C string that a field holds: its bytes up to and with the first
/// zero byte, or `???` where it has none.
pub open spec fn cstr_of(bytes: Seq<u8>) -> Seq<u8> {
    match before_nul(bytes) {
        Some(prefix) => prefix.push(0),
        None => unknown_mark(),
    }
}

/// Cuts a field down to its C string, terminator included, for display.
pub fn cstr_from_bytes(bytes: &[u8]) -> (r: Vec<u8>)
    ensures
        r@ == cstr_of(bytes@),
{
    let len: usize = bytes.len();
    match find_nul(bytes) {
        Some(pos) => {
            assert(pos < len);
            proof {
                lemma_before_nul(bytes@, pos as int);
                assert(bytes@.subrange(0, pos + 1) =~= bytes@.subrange(0, pos as int).push(0));
            }
            slice_to_vec(slice_subrange(bytes, 0, pos + 1))
        },
        None => {
            proof {
                lemma_unterminated(bytes@);
            }
            let r: Vec<u8> = vec![0x3f, 0x3f, 0x3f, 0];
            assert(r@ =~= unknown_mark());
            r
        },
    }
}

/// `core::str::from_utf8`: succeeds exactly on well-formed UTF-8, and the
/// string slice it then returns is made of the very bytes it was given.
#[verifier::external_body]
fn str_from_utf8(bytes: &[u8]) -> (r: Option<&str>)
    ensures
        r.is_some() <==> valid_utf8(bytes@),
        r matches Some(s) ==> s.spec_bytes() == bytes@,
{
    core::str::from_utf8(bytes).ok()
}

/// `Vec::into_boxed_slice`: the same elements, boxed.
#[verifier::external_body]
fn into_boxed(v: Vec<u8>) -> (b: Box<[u8]>)
    ensures
        b@ == v@,
{
    v.into_boxed_slice()
}

/// Reads a text field. On failure the whole field comes back, untouched.
pub fn string_from_bytes(bytes: &[u8]) -> (r: Result<String, Box<[u8]>>)
    ensures
        match r {
            Ok(s) => text_of(bytes@) == Some(s@),
            Err(raw) => text_of(bytes@).is_none() && raw@ == bytes@,
        },
{
    match find_nul(bytes) {
        Some(pos) => {
            let prefix = slice_subrange(bytes, 0, pos);
            proof {
                lemma_before_nul(bytes@, pos as int);
            }
            match str_from_utf8(prefix) {
                Some(s) => {
                    proof {
                        encode_utf8_decode_utf8(s@);
                    }
                    Ok(s.to_owned())
                },
                None => Err(into_boxed(slice_to_vec(bytes))),
            }
        },
        None => {
            proof {
                lemma_unterminated(bytes@);
            }
            Err(into_boxed(slice_to_vec(bytes)))
        },
    }
}

} // verus!
