//! Commit identifiers: twenty-byte content hashes, ordered byte by byte and
//! written as forty lowercase hexadecimal digits.

use vstd::prelude::*;
use crate::hex::{digit_char, digit_value, hex_text, hex_value, is_hex_text};
use crate::text::{chars_of, text_of};

verus! {

/// The number of bytes in a commit identifier.
pub const ID_BYTES: usize = 20;

/// The number of hexadecimal digits that write a commit identifier out.
pub const ID_HEX_DIGITS: usize = 40;

/// The identifier of one commit.
#[derive(Clone, Copy, Debug, PartialEq, Eq, PartialOrd, Ord, Hash)]
pub struct CommitId {
    pub bytes: [u8; 20],
}

impl View for CommitId {
    type V = Seq<u8>;

    open spec fn view(&self) -> Seq<u8> {
        self.bytes@
    }
}

/// `a` comes before `b` in the order that compares byte by byte from the
/// front.
pub open spec fn bytes_before(a: Seq<u8>, b: Seq<u8>) -> bool {
    exists|k: int|
        0 <= k < a.len() && k < b.len() && a.subrange(0, k) == b.subrange(0, k) && #[trigger] a[k]
            < b[k]
}

/// The byte that two hexadecimal digits write, high half first.
pub open spec fn byte_of_digits(high: char, low: char) -> u8
    recommends
        hex_value(high) is Some,
        hex_value(low) is Some,
{
    (hex_value(high)->Some_0 * 16 + hex_value(low)->Some_0) as u8
}

/// The bytes that a text of hexadecimal digits writes, two digits to a byte.
pub open spec fn bytes_of_hex(s: Seq<char>) -> Seq<u8> {
    Seq::new((s.len() / 2) as nat, |i: int| byte_of_digits(s[2 * i], s[2 * i + 1]))
}

impl CommitId {
    /// The identifier with the given bytes.
    pub fn from_bytes(bytes: [u8; 20]) -> (id: CommitId)
        ensures
            id@ == bytes@,
    {
        CommitId { bytes }
    }

    /// Whether two identifiers are the same.
    pub fn same(&self, other: &CommitId) -> (yes: bool)
        ensures
            yes == (self@ == other@),
    {
        let mut i: usize = 0;
        while i < 20
            invariant
                i <= 20,
                forall|j: int| 0 <= j < i ==> self@[j] == other@[j],
            decreases 20 - i,
        {
            if self.bytes[i] != other.bytes[i] {
                return false;
            }
            i += 1;
        }
        assert(self@ =~= other@);
        true
    }

    /// Whether this identifier comes before `other`, byte by byte.
    pub fn precedes(&self, other: &CommitId) -> (yes: bool)
        ensures
            yes == bytes_before(self@, other@),
    {
        let mut i: usize = 0;
        while i < 20
            invariant
                i <= 20,
                forall|j: int| 0 <= j < i ==> self@[j] == other@[j],
            decreases 20 - i,
        {
            if self.bytes[i] != other.bytes[i] {
                let before = self.bytes[i] < other.bytes[i];
                proof {
                    assert(self@.subrange(0, i as int) =~= other@.subrange(0, i as int));
                    if !before {
                        assert forall|k: int|
                            0 <= k < 20 && self@.subrange(0, k) == other@.subrange(
                                0,
                                k,
                            ) implies !(#[trigger] self@[k] < other@[k]) by {
                            if k > i {
                                assert(self@.subrange(0, k)[i as int] == other@.subrange(0, k)[i as int]);
                            }
                        }
                    }
                }
                return before;
            }
            i += 1;
        }
        false
    }

    /// The identifier written as forty lowercase hexadecimal digits.
    pub fn to_hex(&self) -> (out: String)
        ensures
            out@ == hex_text(self@),
            out@.len() == 40,
    {
        let mut digits: Vec<char> = Vec::new();
        let mut i: usize = 0;
        while i < 20
            invariant
                i <= 20,
                digits@.len() == 2 * i,
                forall|j: int| 0 <= j < 2 * i ==> digits@[j] == hex_text(self@)[j],
            decreases 20 - i,
        {
            let b = self.bytes[i];
            digits.push(digit_char(b / 16));
            digits.push(digit_char(b % 16));
            i += 1;
        }
        assert(digits@ =~= hex_text(self@));
        text_of(digits.as_slice())
    }

    /// Reads an identifier written as exactly forty hexadecimal digits, in
    /// either case. Any other text gives `None`.
    pub fn from_hex(text: &str) -> (id: Option<CommitId>)
        ensures
            id is Some <==> text@.len() == 40 && is_hex_text(text@),
            id matches Some(c) ==> c@ == bytes_of_hex(text@),
    {
        let digits = chars_of(text);
        if digits.len() != 40 {
            return None;
        }
        let mut bytes: [u8; 20] = [0u8; 20];
        let mut i: usize = 0;
        while i < 20
            invariant
                i <= 20,
                digits@.len() == 40,
                digits@ == text@,
                forall|j: int| 0 <= j < 2 * i ==> (#[trigger] hex_value(digits@[j])) is Some,
                forall|j: int| 0 <= j < i ==> bytes@[j] == bytes_of_hex(digits@)[j],
            decreases 20 - i,
        {
            let high = digit_value(digits[2 * i]);
            let low = digit_value(digits[2 * i + 1]);
            match (high, low) {
                (Some(h), Some(l)) => {
                    bytes[i] = h * 16 + l;
                },
                _ => {
                    return None;
                },
            }
            i += 1;
        }
        assert(bytes@ =~= bytes_of_hex(text@));
        Some(CommitId { bytes })
    }
}

/// Writing an identifier out and reading it back gives the identifier.
pub proof fn hex_round_trip(bytes: Seq<u8>)
    ensures
        is_hex_text(hex_text(bytes)),
        bytes_of_hex(hex_text(bytes)) == bytes,
{
    let text = hex_text(bytes);
    assert forall|i: int| 0 <= i < text.len() implies (#[trigger] hex_value(text[i])) is Some by {
        let b = bytes[i / 2];
        assert(b / 16 < 16 && b % 16 < 16);
    }
    assert forall|i: int| 0 <= i < bytes.len() implies bytes_of_hex(text)[i] == bytes[i] by {
        let b = bytes[i];
        assert((2 * i) / 2 == i && (2 * i) % 2 == 0);
        assert((2 * i + 1) / 2 == i && (2 * i + 1) % 2 == 1);
        assert(b / 16 < 16 && b % 16 < 16);
        assert((b / 16) * 16 + b % 16 == b);
    }
    assert((2 * bytes.len()) / 2 == bytes.len());
    assert(bytes_of_hex(text) =~= bytes);
}

} // verus!
