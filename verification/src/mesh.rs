//! Addresses, links and peers of the Reticulum mesh, as plain values.

use vstd::prelude::*;

use crate::digits;
use crate::digits::{hex, hex_digit_value};
use crate::text;
use crate::text::{to_chars, utf8_len};

verus! {

/// The number of bytes of an address hash.
pub const ADDRESS_HASH_SIZE: usize = 16;

/// The truncated hash by which a destination on the mesh is addressed.
#[derive(Clone, Copy, Debug)]
pub struct AddressHash {
    pub bytes: [u8; 16],
}

/// Why a text is not an address hash.
#[derive(Clone, Copy, Debug, PartialEq, Eq, Structural)]
pub enum HashError {
    IncorrectHash,
}

/// The byte that two characters write in hexadecimal. A plus sign may stand in
/// place of the first digit, and then counts as zero.
pub open spec fn pair_value(a: char, b: char) -> Option<int> {
    if digits::hex_value(b) is None {
        None
    } else if a == '+' {
        digits::hex_value(b)
    } else if digits::hex_value(a) is Some {
        Some(digits::hex_value(a)->0 * 16 + digits::hex_value(b)->0)
    } else {
        None
    }
}

/// Whether a text starts with the hexadecimal digits of an address hash.
pub open spec fn holds_hash(s: Seq<char>) -> bool {
    &&& s.len() >= 32
    &&& forall|i: int| 0 <= i < 16 ==> #[trigger] pair_value(s[2 * i], s[2 * i + 1]) is Some
}

/// The texts on which reading an address hash is defined: those too short to be
/// one, and those that start with the digits of one.
pub open spec fn hash_readable(s: Seq<char>) -> bool {
    text::byte_len(s) < 32 || holds_hash(s)
}

/// The bytes of the address hash that a text starts with.
pub open spec fn hash_bytes(s: Seq<char>) -> Seq<u8> {
    Seq::new(16, |i: int| pair_value(s[2 * i], s[2 * i + 1])->0 as u8)
}

/// The byte that two characters write in hexadecimal.
fn read_pair(a: char, b: char) -> (r: Option<u8>)
    ensures
        match r {
            Some(v) => pair_value(a, b) == Some(v as int),
            None => pair_value(a, b) is None,
        },
{
    match (hex_digit_value(a), hex_digit_value(b)) {
        (_, None) => None,
        (Some(hi), Some(lo)) => Some(hi * 16 + lo),
        (None, Some(lo)) => if a == '+' {
            Some(lo)
        } else {
            None
        },
    }
}

/// Whether a text starts with the hexadecimal digits of an address hash, or is
/// too short to be one.
pub fn is_hash_readable(s: &str) -> (r: bool)
    ensures
        r == hash_readable(s@),
{
    if utf8_len(s) < 32 {
        return true;
    }
    let chars = to_chars(s);
    if chars.len() < 32 {
        return false;
    }
    let mut i: usize = 0;
    while i < 16
        invariant
            chars@ == s@,
            chars@.len() >= 32,
            text::byte_len(s@) >= 32,
            i <= 16,
            forall|k: int| 0 <= k < i ==> #[trigger] pair_value(s@[2 * k], s@[2 * k + 1]) is Some,
        decreases 16 - i,
    {
        if read_pair(chars[2 * i], chars[2 * i + 1]).is_none() {
            proof {
                assert(pair_value(s@[2 * i], s@[2 * i + 1]) is None);
            }
            return false;
        }
        i += 1;
    }
    true
}

impl View for AddressHash {
    type V = Seq<u8>;

    open spec fn view(&self) -> Seq<u8> {
        self.bytes@
    }
}

impl AddressHash {
    /// Reads an address hash from the hexadecimal digits that a text starts with.
    /// A text of fewer than 32 bytes is no address hash.
    pub fn new_from_hex_string(s: &str) -> (r: Result<AddressHash, HashError>)
        requires
            hash_readable(s@),
        ensures
            r is Err <==> text::byte_len(s@) < 32,
            r matches Err(e) ==> e == HashError::IncorrectHash,
            r matches Ok(hash) ==> hash@ == hash_bytes(s@),
    {
        if utf8_len(s) < 32 {
            return Err(HashError::IncorrectHash);
        }
        let chars = to_chars(s);
        let mut bytes: [u8; 16] = [0u8; 16];
        let mut i: usize = 0;
        while i < 16
            invariant
                chars@ == s@,
                holds_hash(s@),
                i <= 16,
                bytes@.len() == 16,
                forall|k: int| 0 <= k < i ==> bytes@[k] == #[trigger] hash_bytes(s@)[k],
            decreases 16 - i,
        {
            proof {
                assert(pair_value(s@[2 * i], s@[2 * i + 1]) is Some);
            }
            if let Some(v) = read_pair(chars[2 * i], chars[2 * i + 1]) {
                bytes[i] = v;
            }
            i += 1;
        }
        proof {
            assert(bytes@ =~= hash_bytes(s@));
        }
        Ok(AddressHash { bytes })
    }

    /// The hash in hexadecimal, two lower-case digits a byte.
    pub fn to_hex_string(&self) -> (r: String)
        ensures
            r@ == digits::hex_of(self@),
    {
        hex(self.bytes.as_slice())
    }

    /// Whether two hashes are the same.
    pub fn same_as(&self, other: &AddressHash) -> (r: bool)
        ensures
            r == (self@ == other@),
    {
        let mut i: usize = 0;
        while i < 16
            invariant
                i <= 16,
                forall|k: int| 0 <= k < i ==> self@[k] == other@[k],
            decreases 16 - i,
        {
            if self.bytes[i] != other.bytes[i] {
                return false;
            }
            i += 1;
        }
        proof {
            assert(self@ =~= other@);
        }
        true
    }
}

/// Hexadecimal digits written by `hex_of` read back as the byte they came from.
proof fn lemma_pair_of_byte(b: u8)
    ensures
        pair_value(digits::hex_char(b as int / 16), digits::hex_char(b as int % 16)) == Some(b as int),
{
}

/// An address hash written in hexadecimal reads back as itself.
pub proof fn law_hash_text_reads_back(bytes: Seq<u8>)
    requires
        bytes.len() == 16,
    ensures
        hash_readable(digits::hex_of(bytes)),
        text::byte_len(digits::hex_of(bytes)) == 32,
        hash_bytes(digits::hex_of(bytes)) == bytes,
{
    let s = digits::hex_of(bytes);
    assert forall|i: int| 0 <= i < s.len() implies (#[trigger] s[i] as u32) < 128 by {}
    text::lemma_ascii_byte_len(s);
    assert forall|i: int| 0 <= i < 16 implies #[trigger] pair_value(s[2 * i], s[2 * i + 1]) == Some(bytes[i] as int) by {
        lemma_pair_of_byte(bytes[i]);
        assert((2 * i) / 2 == i && (2 * i + 1) / 2 == i && (2 * i) % 2 == 0 && (2 * i + 1) % 2 == 1);
    }
    assert(hash_bytes(s) =~= bytes);
}

/// Reading 32 hexadecimal digits and writing the hash back gives the same digits
/// in lower case.
pub proof fn law_hash_text_normalises(s: Seq<char>)
    requires
        s.len() == 32,
        digits::all_hex(s),
    ensures
        hash_readable(s),
        text::byte_len(s) == 32,
        digits::hex_of(hash_bytes(s)) == text::ascii_lowered(s),
{
    assert forall|i: int| 0 <= i < s.len() implies (#[trigger] s[i] as u32) < 128 by {
        assert(digits::hex_value(s[i]) is Some);
    }
    text::lemma_ascii_byte_len(s);
    assert forall|i: int| 0 <= i < 16 implies #[trigger] pair_value(s[2 * i], s[2 * i + 1]) is Some by {
        assert(digits::hex_value(s[2 * i]) is Some);
        assert(digits::hex_value(s[2 * i + 1]) is Some);
    }
    let h = hash_bytes(s);
    assert forall|i: int| 0 <= i < 32 implies digits::hex_of(h)[i] == text::ascii_lowered(s)[i] by {
        let k = i / 2;
        assert(digits::hex_value(s[2 * k]) is Some);
        assert(digits::hex_value(s[2 * k + 1]) is Some);
        let hi = digits::hex_value(s[2 * k])->0;
        let lo = digits::hex_value(s[2 * k + 1])->0;
        assert(0 <= hi < 16 && 0 <= lo < 16);
        assert(h[k] as int == hi * 16 + lo);
        assert((hi * 16 + lo) / 16 == hi && (hi * 16 + lo) % 16 == lo);
        if i % 2 == 0 {
            assert(i == 2 * k);
        } else {
            assert(i == 2 * k + 1);
        }
    }
    assert(digits::hex_of(h) =~= text::ascii_lowered(s));
}

/// The state of a link to another node.
#[derive(Clone, Copy, Debug, PartialEq, Eq, Structural)]
pub enum LinkStatus {
    Pending,
    Handshake,
    Active,
    Stale,
    Closed,
}

/// What happened on a link.
#[derive(Clone, Debug)]
pub enum LinkEvent {
    Activated,
    Data(Vec<u8>),
    Proof,
    Closed,
}

/// A destination as it was announced: its address and the public keys behind it.
#[derive(Clone, Copy, Debug)]
pub struct DestinationDesc {
    pub address_hash: AddressHash,
    pub public_key: [u8; 32],
    pub verifying_key: [u8; 32],
    pub name_hash: [u8; 32],
}

/// A text that starts with 32 hexadecimal digits is read as the sixteen bytes that they write, two
/// digits a byte and the high one first, whatever their case; a shorter text is refused.
pub proof fn law_hash_is_read_from_its_digits(s: &str, r: Result<AddressHash, HashError>, i: int)
    requires
        hash_readable(s@),
        call_ensures(AddressHash::new_from_hex_string, (s,), r),
        0 <= i < 16,
    ensures
        s@.len() >= 32 && digits::all_hex(s@.take(32)) ==> r is Ok && r->Ok_0@[i] == 16 * digits::hex_value(s@[2 * i])->0
            + digits::hex_value(s@[2 * i + 1])->0,
        text::byte_len(s@) < 32 <==> r is Err,
{
    if s@.len() >= 32 && digits::all_hex(s@.take(32)) {
        let t = s@.take(32);
        assert(t[2 * i] == s@[2 * i] && t[2 * i + 1] == s@[2 * i + 1]);
        assert(digits::hex_value(t[2 * i]) is Some && digits::hex_value(t[2 * i + 1]) is Some);
        lemma_byte_len_at_least(s@);
    }
}

/// A text has at least one byte for each of its characters.
proof fn lemma_byte_len_at_least(s: Seq<char>)
    ensures
        text::byte_len(s) >= s.len(),
    decreases s.len(),
{
    if s.len() > 0 {
        lemma_byte_len_at_least(s.drop_first());
    }
}

/// A hash that is written and read again is the same hash, and only the same hashes are written alike.
pub proof fn law_written_hash_reads_back(a: &AddressHash, written: String, s: &str, r: Result<AddressHash, HashError>, b: &AddressHash, same: bool)
    requires
        call_ensures(AddressHash::to_hex_string, (a,), written),
        s@ == written@,
        call_ensures(AddressHash::new_from_hex_string, (s,), r),
        call_ensures(AddressHash::same_as, (a, b), same),
    ensures
        hash_readable(s@),
        r is Ok && r->Ok_0@ == a@,
        same <==> digits::hex_of(a@) == digits::hex_of(b@),
        same <==> forall|i: int| 0 <= i < 16 ==> a@[i] == #[trigger] b@[i],
{
    law_hash_text_reads_back(a@);
    law_hash_text_reads_back(b@);
    if forall|i: int| 0 <= i < 16 ==> a@[i] == #[trigger] b@[i] {
        assert(a@ =~= b@);
    }
}

} // verus!
