//! Zero-terminated names for subsystems, categories, events and intervals.

use vstd::prelude::*;
use vstd::utf8::{
    char_is_scalar, char_u32_cast, encode_scalar, encode_utf8, has_width_1_encoding, is_scalar,
};

verus! {

/// Whether `bytes` holds a zero byte anywhere.
pub open spec fn has_nul(bytes: Seq<u8>) -> bool {
    bytes.contains(0u8)
}

/// Whether the first zero byte of `bytes` stands at index `at`.
pub open spec fn first_nul_at(bytes: Seq<u8>, at: int) -> bool {
    &&& 0 <= at < bytes.len()
    &&& bytes[at] == 0u8
    &&& forall|j: int| 0 <= j < at ==> bytes[j] != 0u8
}

/// Whether `bytes` is a zero-terminated string: its last byte is zero and no
/// other byte is.
pub open spec fn is_c_string(bytes: Seq<u8>) -> bool {
    &&& bytes.len() > 0
    &&& bytes.last() == 0u8
    &&& !has_nul(bytes.drop_last())
}

/// Among the bytes that encode one character, one is zero only where the
/// character is the NUL character.
proof fn lemma_scalar_nul(c: u32)
    requires
        is_scalar(c),
    ensures
        has_nul(encode_scalar(c)) <==> c == 0,
{
    if has_width_1_encoding(c) {
        assert(((c & 0x7F) as u8 == 0u8) <==> c == 0) by (bit_vector)
            requires
                c <= 0x7F,
        ;
        if c == 0 {
            assert(encode_scalar(c)[0] == 0u8);
        }
    } else {
        assert((0xC0 | ((c >> 6) & 0x1F) as u8) != 0u8) by (bit_vector);
        assert((0xE0 | ((c >> 12) & 0x0F) as u8) != 0u8) by (bit_vector);
        assert((0xF0 | ((c >> 18) & 0x7) as u8) != 0u8) by (bit_vector);
        assert((0x80 | (c & 0x3F) as u8) != 0u8) by (bit_vector);
        assert((0x80 | ((c >> 6) & 0x3F) as u8) != 0u8) by (bit_vector);
        assert((0x80 | ((c >> 12) & 0x3F) as u8) != 0u8) by (bit_vector);
    }
}

/// A text holds the NUL character exactly when its UTF-8 encoding holds a
/// zero byte: looking for the one is looking for the other.
pub proof fn lemma_nul_char_iff_nul_byte(text: Seq<char>)
    ensures
        text.contains('\0') <==> has_nul(encode_utf8(text)),
    decreases text.len(),
{
    if text.len() > 0 {
        let head = encode_scalar(text[0] as u32);
        let rest = text.drop_first();
        let tail = encode_utf8(rest);
        char_is_scalar(text[0]);
        char_u32_cast(text[0], text[0] as u32);
        lemma_scalar_nul(text[0] as u32);
        lemma_nul_char_iff_nul_byte(rest);
        assert(text[0] as u32 == 0 <==> text[0] == '\0');
        if text.contains('\0') {
            let i = choose|i: int| 0 <= i < text.len() && text[i] == '\0';
            if i == 0 {
                let k = choose|k: int| 0 <= k < head.len() && head[k] == 0u8;
                assert((head + tail)[k] == 0u8);
            } else {
                assert(rest[i - 1] == '\0');
                let k = choose|k: int| 0 <= k < tail.len() && tail[k] == 0u8;
                assert((head + tail)[head.len() + k] == 0u8);
            }
        }
        if has_nul(encode_utf8(text)) {
            let k = choose|k: int| 0 <= k < (head + tail).len() && (head + tail)[k] == 0u8;
            if k < head.len() {
                assert(head[k] == 0u8);
                assert(text[0] == '\0');
            } else {
                assert(tail[k - head.len()] == 0u8);
                let i = choose|i: int| 0 <= i < rest.len() && rest[i] == '\0';
                assert(text[i + 1] == '\0');
            }
        }
    }
}

/// The text of a name held a zero byte.
#[derive(Debug, PartialEq, Eq)]
pub struct NulError {
    /// Index of the first zero byte in the rejected text.
    pub position: usize,
}

/// A name in the form that the native facility reads: its bytes followed by a
/// single zero byte.
///
/// The view of a name is its content, without the terminator.
#[derive(Debug, PartialEq, Eq)]
pub struct CName {
    bytes: Vec<u8>,
}

impl View for CName {
    type V = Seq<u8>;

    closed spec fn view(&self) -> Seq<u8> {
        self.bytes@.drop_last()
    }
}

impl CName {
    #[verifier::type_invariant]
    spec fn well_formed(self) -> bool {
        is_c_string(self.bytes@)
    }

    /// Validates `content` and stores it with a terminating zero byte.
    ///
    /// Fails exactly when `content` holds a zero byte, and then reports where
    /// the first one stands.
    pub fn from_bytes(content: &[u8]) -> (r: Result<CName, NulError>)
        ensures
            match r {
                Ok(name) => !has_nul(content@) && name@ == content@,
                Err(e) => first_nul_at(content@, e.position as int),
            },
    {
        let mut bytes: Vec<u8> = Vec::new();
        let mut i: usize = 0;
        while i < content.len()
            invariant
                i <= content.len(),
                bytes@ == content@.subrange(0, i as int),
                forall|j: int| 0 <= j < i ==> content@[j] != 0u8,
            decreases content.len() - i,
        {
            let b: u8 = content[i];
            if b == 0 {
                return Err(NulError { position: i });
            }
            bytes.push(b);
            i += 1;
        }
        assert(content@.subrange(0, i as int) == content@);
        bytes.push(0);
        assert(bytes@.drop_last() == content@);
        Ok(CName { bytes })
    }

    /// Validates the UTF-8 bytes of `text` and stores them with a terminating
    /// zero byte.
    pub fn new(text: &str) -> (r: Result<CName, NulError>)
        ensures
            match r {
                Ok(name) => !has_nul(encode_utf8(text@)) && name@ == encode_utf8(text@),
                Err(e) => first_nul_at(encode_utf8(text@), e.position as int),
            },
    {
        CName::from_bytes(text.as_bytes())
    }

    /// The content followed by the terminating zero byte.
    pub fn as_bytes_with_nul(&self) -> (r: &[u8])
        ensures
            r@ == self@.push(0u8),
            !has_nul(self@),
            is_c_string(r@),
    {
        proof {
            use_type_invariant(self);
        }
        assert(self.bytes@ == self.bytes@.drop_last().push(0u8));
        self.bytes.as_slice()
    }
}

} // verus!
