use vstd::prelude::*;
use vstd::utf8::*;
use vstd::string::*;

verus! {

/// The error of a string that cannot become a C string: it holds a NUL byte.
#[derive(Clone, Copy, PartialEq, Eq, Structural, Debug)]
pub struct NulError {
    position: usize,
}

impl NulError {
    /// The index of the first NUL byte in the string that was refused.
    pub fn nul_position(&self) -> (p: usize)
        ensures
            p == self.position(),
    {
        self.position
    }

    pub closed spec fn position(self) -> usize {
        self.position
    }
}

/// Whether `bytes` holds a NUL byte.
pub open spec fn has_nul(bytes: Seq<u8>) -> bool {
    exists|i: int| 0 <= i < bytes.len() && bytes[i] == 0u8
}

/// The bytes of a C string as the C library reads it: everything before the
/// first NUL byte, or all of them where there is none.
pub open spec fn c_text(bytes: Seq<u8>) -> Seq<u8>
    decreases bytes.len(),
{
    if bytes.len() == 0 {
        bytes
    } else if bytes[0] == 0u8 {
        Seq::empty()
    } else {
        seq![bytes[0]] + c_text(bytes.drop_first())
    }
}

/// Converts `text` into the bytes of a NUL-terminated C string: its UTF-8
/// bytes followed by one NUL.  A text that holds a NUL byte is refused, with
/// the position of its first NUL byte.
pub fn to_c_string(text: &str) -> (r: Result<Vec<u8>, NulError>)
    ensures
        match r {
            Ok(bytes) => !has_nul(text.spec_bytes()) && bytes@ == text.spec_bytes().push(0u8),
            Err(e) => {
                &&& 0 <= e.position() < text.spec_bytes().len()
                &&& text.spec_bytes()[e.position() as int] == 0u8
                &&& forall|i: int| 0 <= i < e.position() ==> text.spec_bytes()[i] != 0u8
            },
        },
{
    let src = text.as_bytes();
    let mut out: Vec<u8> = Vec::new();
    let mut i: usize = 0;
    while i < src.len()
        invariant
            src@ == text.spec_bytes(),
            0 <= i <= src@.len(),
            out@ == src@.subrange(0, i as int),
            forall|j: int| 0 <= j < i ==> src@[j] != 0u8,
        decreases src@.len() - i,
    {
        if src[i] == 0u8 {
            return Err(NulError { position: i });
        }
        out.push(src[i]);
        i = i + 1;
        assert(out@ == src@.subrange(0, i as int));
    }
    assert(out@ == src@);
    assert(!has_nul(text.spec_bytes()));
    out.push(0u8);
    Ok(out)
}

/// `String::from_utf8` of the standard library: the bytes as a `String` when
/// they are valid UTF-8, `None` otherwise.  The contract claims that the
/// result is `Some` exactly on valid UTF-8, and that the characters of the
/// string are the decoding of the bytes.
#[verifier::external_body]
pub(crate) fn string_from_utf8(bytes: Vec<u8>) -> (r: Option<String>)
    ensures
        r is Some <==> valid_utf8(bytes@),
        r matches Some(s) ==> s@ == decode_utf8(bytes@),
{
    match String::from_utf8(bytes) {
        Ok(s) => Some(s),
        Err(_) => None,
    }
}

/// When no byte of `bytes` before `k` is NUL and `bytes[k]` is NUL (or `k`
/// is the end), the C text of `bytes` is its first `k` bytes.
pub proof fn lemma_c_text_prefix(bytes: Seq<u8>, k: int)
    requires
        0 <= k <= bytes.len(),
        forall|i: int| 0 <= i < k ==> bytes[i] != 0u8,
        k < bytes.len() ==> bytes[k] == 0u8,
    ensures
        c_text(bytes) == bytes.subrange(0, k),
    decreases bytes.len(),
{
    if bytes.len() == 0 {
    } else if bytes[0] == 0u8 {
        assert(bytes.subrange(0, k) =~= Seq::<u8>::empty());
    } else {
        let rest = bytes.drop_first();
        assert forall|i: int| 0 <= i < k - 1 implies rest[i] != 0u8 by {
            assert(rest[i] == bytes[i + 1]);
        }
        lemma_c_text_prefix(rest, k - 1);
        assert(seq![bytes[0]] + rest.subrange(0, k - 1) =~= bytes.subrange(0, k));
    }
}

/// Reads the text of a C string held in `bytes`: the bytes before the first
/// NUL (all of them when there is none), as a `String` when they are valid
/// UTF-8, `None` otherwise.
pub fn text_from_c(bytes: Vec<u8>) -> (r: Option<String>)
    ensures
        r is Some <==> valid_utf8(c_text(bytes@)),
        r matches Some(s) ==> s@ == decode_utf8(c_text(bytes@)),
{
    let mut bytes = bytes;
    let ghost whole = bytes@;
    let mut k: usize = 0;
    while k < bytes.len() && bytes[k] != 0u8
        invariant
            bytes@ == whole,
            0 <= k <= whole.len(),
            forall|i: int| 0 <= i < k ==> whole[i] != 0u8,
        decreases whole.len() - k,
    {
        k = k + 1;
    }
    proof {
        lemma_c_text_prefix(whole, k as int);
    }
    bytes.truncate(k);
    assert(bytes@ == c_text(whole));
    string_from_utf8(bytes)
}

/// Law: a C string made by [`to_c_string`] reads back as the text it was
/// made from.
pub proof fn law_c_string_round_trip(text: &str, bytes: Seq<u8>)
    requires
        !has_nul(text.spec_bytes()),
        bytes == text.spec_bytes().push(0u8),
    ensures
        c_text(bytes) == text.spec_bytes(),
        valid_utf8(c_text(bytes)),
        decode_utf8(c_text(bytes)) == text@,
{
    let n: int = text.spec_bytes().len() as int;
    assert forall|i: int| 0 <= i < n implies bytes[i] != 0u8 by {
        assert(bytes[i] == text.spec_bytes()[i]);
    }
    lemma_c_text_prefix(bytes, n);
    assert(bytes.subrange(0, n) =~= text.spec_bytes());
    encode_utf8_valid_utf8(text@);
    encode_utf8_decode_utf8(text@);
}

/// Law: the C text of `bytes` is the longest prefix of `bytes` without a
/// NUL byte: a prefix, free of NUL, and followed by a NUL unless it is all
/// of `bytes`.
pub proof fn law_c_text_is_prefix_before_nul(bytes: Seq<u8>)
    ensures
        c_text(bytes).len() <= bytes.len(),
        c_text(bytes) == bytes.subrange(0, c_text(bytes).len() as int),
        !has_nul(c_text(bytes)),
        c_text(bytes).len() < bytes.len() ==> bytes[c_text(bytes).len() as int] == 0u8,
    decreases bytes.len(),
{
    if bytes.len() == 0 {
        assert(bytes.subrange(0, 0) =~= bytes);
    } else if bytes[0] == 0u8 {
        assert(bytes.subrange(0, 0) =~= Seq::<u8>::empty());
    } else {
        let rest = bytes.drop_first();
        law_c_text_is_prefix_before_nul(rest);
        let t = c_text(rest);
        assert(c_text(bytes) == seq![bytes[0]] + t);
        assert(seq![bytes[0]] + rest.subrange(0, t.len() as int) =~= bytes.subrange(
            0,
            t.len() + 1 as int,
        ));
        if has_nul(seq![bytes[0]] + t) {
            let i = choose|i: int| 0 <= i < (seq![bytes[0]] + t).len() && (seq![bytes[0]] + t)[i] == 0u8;
            if i > 0 {
                assert(t[i - 1] == 0u8);
                assert(has_nul(t));
            }
        }
        if t.len() < rest.len() {
            assert(bytes[t.len() + 1 as int] == rest[t.len() as int]);
        }
    }
}

} // verus!
