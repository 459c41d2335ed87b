//! Block hashes and their textual form.
//!
//! A block hash is a fixed-width byte string. In text it is written as `0x`
//! followed by two hexadecimal digits per byte.

use vstd::prelude::*;
use vstd::slice::slice_subrange;
use vstd::string::StringExecFns;
use vstd::string::StringSliceAdditionalSpecFns;

verus! {

/// Number of bytes in a block hash.
pub const HASH_BYTES: usize = 32;

/// Number of bytes in the textual form of a block hash: `0x` and two digits per byte.
pub const HASH_TEXT_BYTES: usize = 66;

/// Identifier of a block: a fixed-width byte string derived from the header.
#[derive(Clone, Copy, Debug, Eq, Hash)]
pub struct BlockHash {
    pub bytes: [u8; 32],
}

impl View for BlockHash {
    type V = Seq<u8>;

    open spec fn view(&self) -> Seq<u8> {
        self.bytes@
    }
}

impl PartialEq for BlockHash {
    fn eq(&self, other: &BlockHash) -> (r: bool) {
        let mut i: usize = 0;
        while i < 32
            invariant
                i <= 32,
                forall|j: int| 0 <= j < i ==> self.bytes[j] == other.bytes[j],
            decreases 32 - i,
        {
            if self.bytes[i] != other.bytes[i] {
                return false;
            }
            i += 1;
        }
        assert(self.bytes =~= other.bytes);
        true
    }
}

impl vstd::std_specs::cmp::PartialEqSpecImpl for BlockHash {
    open spec fn obeys_eq_spec() -> bool {
        true
    }

    open spec fn eq_spec(&self, other: &BlockHash) -> bool {
        *self == *other
    }
}

/// Two hashes with the same bytes are the same hash.
pub proof fn lemma_hash_determined_by_bytes(a: BlockHash, b: BlockHash)
    ensures
        a@ == b@ <==> a == b,
{
    if a@ == b@ {
        assert(a.bytes =~= b.bytes);
    }
}

/// Value of one hexadecimal digit given as an ASCII byte, in either case.
pub open spec fn hex_digit_value(c: u8) -> Option<u8> {
    if 0x30 <= c <= 0x39 {
        Some((c - 0x30) as u8)
    } else if 0x61 <= c <= 0x66 {
        Some((c - 0x61 + 10) as u8)
    } else if 0x41 <= c <= 0x46 {
        Some((c - 0x41 + 10) as u8)
    } else {
        None
    }
}

/// The text is an even number of hexadecimal digits.
pub open spec fn is_hex_text(text: Seq<u8>) -> bool {
    &&& text.len() % 2 == 0
    &&& forall|i: int| 0 <= i < text.len() ==> hex_digit_value(#[trigger] text[i]) is Some
}

/// The bytes that a hexadecimal text denotes: each pair of digits is one byte,
/// high digit first.
pub open spec fn hex_value(text: Seq<u8>) -> Seq<u8> {
    Seq::new(
        text.len() / 2,
        |i: int|
            (16 * hex_digit_value(text[2 * i]).unwrap() + hex_digit_value(
                text[2 * i + 1],
            ).unwrap()) as u8,
    )
}

/// The lower-case hexadecimal digit for a value below sixteen.
pub open spec fn hex_digit_char(v: int) -> char {
    if v < 10 {
        ((0x30 + v) as u8) as char
    } else {
        ((0x61 + v - 10) as u8) as char
    }
}

/// The lower-case hexadecimal text of a byte string: two digits per byte,
/// high digit first.
pub open spec fn hex_text(bytes: Seq<u8>) -> Seq<char> {
    Seq::new(
        2 * bytes.len(),
        |i: int|
            if i % 2 == 0 {
                hex_digit_char(bytes[i / 2] as int / 16)
            } else {
                hex_digit_char(bytes[i / 2] as int % 16)
            },
    )
}

/// What a hash text denotes: `0x` and then exactly two hexadecimal digits for
/// each byte of a hash. Any other length or content denotes nothing.
pub open spec fn hash_text_value(text: Seq<u8>) -> Option<Seq<u8>> {
    if text.len() == HASH_TEXT_BYTES && text[0] == 0x30 && text[1] == 0x78 && is_hex_text(
        text.skip(2),
    ) {
        Some(hex_value(text.skip(2)))
    } else {
        None
    }
}

/// The hash that a hash text denotes.
pub open spec fn hash_of_text(text: Seq<u8>) -> Option<BlockHash> {
    match hash_text_value(text) {
        Some(bytes) => Some(BlockHash::with_bytes(bytes)),
        None => None,
    }
}

/// The textual form of a hash with the given bytes.
pub open spec fn hash_text(bytes: Seq<u8>) -> Seq<char> {
    seq!['0', 'x'] + hex_text(bytes)
}

/// A hexadecimal digit is an ASCII character and has the value it was made from.
pub proof fn lemma_hex_digit(v: int)
    requires
        0 <= v < 16,
    ensures
        '\0' <= hex_digit_char(v) <= '\u{7f}',
        hex_digit_value(hex_digit_char(v) as u8) == Some(v as u8),
{
}

/// Reading the textual form of a hash gives the hash back.
pub proof fn lemma_text_round_trip(h: BlockHash)
    ensures
        hash_of_text(vstd::utf8::encode_utf8(hash_text(h@))) == Some(h),
{
    let bytes = h@;
    let text = hash_text(bytes);
    let digits = hex_text(bytes);
    assert(bytes.len() == 32);
    assert(text.len() == 66);
    assert forall|i: int| 0 <= i < text.len() implies '\0' <= #[trigger] text[i] <= '\u{7f}' by {
        if i >= 2 {
            assert(text[i] == digits[i - 2]);
            let b = bytes[(i - 2) / 2] as int;
            lemma_hex_digit(b / 16);
            lemma_hex_digit(b % 16);
        }
    }
    vstd::utf8::is_ascii_chars_encode_utf8(text);
    let encoded = vstd::utf8::encode_utf8(text);
    assert(encoded.len() == 66);
    assert(encoded[0] == text[0] as u8);
    assert(encoded[1] == text[1] as u8);
    let tail = encoded.skip(2);
    assert forall|i: int| 0 <= i < tail.len() implies hex_digit_value(#[trigger] tail[i])
        == Some(
        (if i % 2 == 0 {
            bytes[i / 2] as int / 16
        } else {
            bytes[i / 2] as int % 16
        }) as u8,
    ) by {
        assert(tail[i] == encoded[i + 2]);
        assert(encoded[i + 2] == text[i + 2] as u8);
        assert(text[i + 2] == digits[i]);
        let b = bytes[i / 2] as int;
        lemma_hex_digit(b / 16);
        lemma_hex_digit(b % 16);
    }
    assert(is_hex_text(tail));
    assert(hex_value(tail) =~= bytes) by {
        assert forall|k: int| 0 <= k < 32 implies hex_value(tail)[k] == bytes[k] by {
            assert(hex_digit_value(tail[2 * k]) == Some((bytes[k] as int / 16) as u8));
            assert(hex_digit_value(tail[2 * k + 1]) == Some((bytes[k] as int % 16) as u8));
        }
    }
    h.lemma_with_bytes();
}

/// `hex::FromHexError`, the reason why a text is no hexadecimal text. It is
/// carried from the decoder to where it is dropped.
#[verifier::external_type_specification]
#[verifier::external_body]
pub struct ExFromHexError(hex::FromHexError);

/// Calls `hex::decode`. It succeeds exactly on an even number of hexadecimal
/// digits (both cases are digits), and then returns one byte per pair of
/// digits, the first digit of a pair being the high half of the byte.
#[verifier::external_body]
fn decode_hex(text: &[u8]) -> (r: Result<Vec<u8>, hex::FromHexError>)
    ensures
        r is Ok <==> is_hex_text(text@),
        r matches Ok(bytes) ==> bytes@ == hex_value(text@),
{
    hex::decode(text)
}

/// Calls `hex::encode`. The result holds two lower-case hexadecimal digits for
/// each byte, the high half of the byte first.
#[verifier::external_body]
fn encode_hex(bytes: &[u8]) -> (r: String)
    ensures
        r@ == hex_text(bytes@),
{
    hex::encode(bytes)
}

impl BlockHash {
    /// The hash with the given bytes, of which there are as many as a hash has.
    pub open spec fn with_bytes(bytes: Seq<u8>) -> BlockHash {
        choose|h: BlockHash| h@ == bytes
    }

    /// A hash is the hash with its bytes.
    pub proof fn lemma_with_bytes(self)
        ensures
            BlockHash::with_bytes(self@) == self,
    {
        lemma_hash_determined_by_bytes(BlockHash::with_bytes(self@), self);
    }

    /// The hash whose bytes are all zero.
    pub open spec fn spec_zero() -> BlockHash {
        BlockHash::with_bytes(Seq::new(32, |i: int| 0u8))
    }

    /// The hash whose bytes are all zero.
    #[verifier::when_used_as_spec(spec_zero)]
    pub fn zero() -> (r: BlockHash)
        ensures
            r == BlockHash::spec_zero(),
    {
        let r = BlockHash { bytes: [0u8; 32] };
        proof {
            assert(r@ =~= Seq::new(32, |i: int| 0u8));
            r.lemma_with_bytes();
        }
        r
    }

    /// Number of bytes in a hash.
    pub fn len_bytes() -> (n: usize)
        ensures
            n == HASH_BYTES,
    {
        HASH_BYTES
    }

    /// Builds a hash from raw bytes; there must be exactly as many as a hash has.
    pub fn from_slice(raw: &[u8]) -> (r: Option<BlockHash>)
        ensures
            r == if raw@.len() == HASH_BYTES {
                Some(BlockHash::with_bytes(raw@))
            } else {
                None::<BlockHash>
            },
    {
        if raw.len() != HASH_BYTES {
            return None;
        }
        let mut bytes = [0u8; 32];
        let mut i: usize = 0;
        while i < 32
            invariant
                i <= 32,
                raw@.len() == 32,
                forall|j: int| 0 <= j < i ==> bytes[j] == raw@[j],
            decreases 32 - i,
        {
            bytes[i] = raw[i];
            i += 1;
        }
        let r = BlockHash { bytes };
        proof {
            assert(r@ =~= raw@);
            r.lemma_with_bytes();
        }
        Some(r)
    }

    /// Reads a hash from hexadecimal digits (without the `0x` marker).
    pub fn from_hex(digits: &[u8]) -> (r: Option<BlockHash>)
        ensures
            r == if is_hex_text(digits@) && digits@.len() == 2 * HASH_BYTES {
                Some(BlockHash::with_bytes(hex_value(digits@)))
            } else {
                None::<BlockHash>
            },
    {
        match decode_hex(digits) {
            Ok(raw) => BlockHash::from_slice(raw.as_slice()),
            Err(_) => None,
        }
    }

    /// Reads a hash from its textual form.
    pub fn from_text(text: &str) -> (r: Option<BlockHash>)
        ensures
            r == hash_of_text(text.spec_bytes()),
    {
        let bytes = text.as_bytes();
        if bytes.len() != HASH_TEXT_BYTES {
            return None;
        }
        if bytes[0] != 0x30 || bytes[1] != 0x78 {
            return None;
        }
        let digits = slice_subrange(bytes, 2, HASH_TEXT_BYTES);
        assert(digits@ =~= bytes@.skip(2));
        BlockHash::from_hex(digits)
    }

    /// The textual form of the hash: `0x` and lower-case hexadecimal digits.
    pub fn to_text(&self) -> (r: String)
        ensures
            r@ == hash_text(self@),
    {
        let digits = encode_hex(self.bytes.as_slice());
        let mut text = String::from_str("0x");
        proof {
            reveal_strlit("0x");
            assert("0x"@ =~= seq!['0', 'x']);
        }
        text.append(digits.as_str());
        text
    }
}

} // verus!
