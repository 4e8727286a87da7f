//! Random bytes from the operating system, and random (version 4) UUIDs made
//! from them. Drawing the bytes may fail; callers carry that failure.
use vstd::prelude::*;

use crate::libvirt::{is_lower_hex, is_uuid_v4_text};
use crate::text::{hex_digit, lemma_lower_hex_digits, lemma_lower_hex_len, lower_hex};

verus! {

/// `count` bytes from the operating system's random source
/// (`getrandom::fill`). Nothing is stated of the bytes but their number; the
/// call may fail.
#[verifier::external_body]
pub(crate) fn random_bytes(count: usize) -> (r: Option<Vec<u8>>)
    ensures
        r matches Some(bytes) ==> bytes@.len() == count,
{
    let mut bytes = vec![0u8; count];
    match getrandom::fill(&mut bytes) {
        Ok(()) => Some(bytes),
        Err(_) => None,
    }
}

/// The 16 bytes of the version-4 UUID built from 16 random bytes: the high
/// nibble of byte 6 set to the version 4, the top two bits of byte 8 to the
/// RFC 4122 variant `10`.
pub open spec fn v4_bytes(random: Seq<u8>) -> Seq<u8> {
    random.update(6, (random[6] & 0x0f) | 0x40).update(8, (random[8] & 0x3f) | 0x80)
}

/// 32 hexadecimal digits grouped 8-4-4-4-12 with hyphens.
pub open spec fn hyphenated(digits: Seq<char>) -> Seq<char> {
    digits.subrange(0, 8) + "-"@ + digits.subrange(8, 12) + "-"@ + digits.subrange(12, 16) + "-"@
        + digits.subrange(16, 20) + "-"@ + digits.subrange(20, 32)
}

/// The hyphenated lowercase form of the version-4 UUID built from `random`.
pub open spec fn uuid_text(random: Seq<u8>) -> Seq<char> {
    hyphenated(lower_hex(v4_bytes(random)))
}

/// `uuid::Builder::from_random_bytes(random).into_uuid()`, written with
/// `Display`: the builder sets the version and variant bits, and `Display`
/// writes the hyphenated lowercase form.
#[verifier::external_body]
fn uuid_from_random_bytes(random: [u8; 16]) -> (r: String)
    ensures
        r@ == uuid_text(random@),
{
    uuid::Builder::from_random_bytes(random).into_uuid().to_string()
}

/// The digits of `lower_hex(bytes)` at `2 * k` and `2 * k + 1` are those of byte `k`.
proof fn lemma_lower_hex_at(bytes: Seq<u8>, k: int)
    requires
        0 <= k < bytes.len(),
    ensures
        lower_hex(bytes).len() == 2 * bytes.len(),
        lower_hex(bytes)[2 * k] == hex_digit(bytes[k] / 16),
        lower_hex(bytes)[2 * k + 1] == hex_digit(bytes[k] % 16),
    decreases bytes.len(),
{
    lemma_lower_hex_len(bytes);
    lemma_lower_hex_len(bytes.drop_last());
    if k < bytes.len() - 1 {
        lemma_lower_hex_at(bytes.drop_last(), k);
        assert(bytes.drop_last()[k] == bytes[k]);
    }
}

/// The text built from any 16 bytes has the form of a random UUID.
proof fn lemma_uuid_text_form(random: Seq<u8>)
    requires
        random.len() == 16,
    ensures
        is_uuid_v4_text(uuid_text(random)),
{
    reveal_strlit("-");
    let bytes = v4_bytes(random);
    let h = lower_hex(bytes);
    lemma_lower_hex_len(bytes);
    lemma_lower_hex_digits(bytes);
    let t = uuid_text(random);
    assert(t.len() == 36);
    let b6 = random[6];
    let b8 = random[8];
    assert(((b6 & 0x0f) | 0x40) / 16 == 4) by (bit_vector);
    assert(8 <= ((b8 & 0x3f) | 0x80) / 16 <= 11) by (bit_vector);
    lemma_lower_hex_at(bytes, 6);
    lemma_lower_hex_at(bytes, 8);
    assert(bytes[6] == (b6 & 0x0f) | 0x40);
    assert(bytes[8] == (b8 & 0x3f) | 0x80);
    assert(t[14] == h[12]);
    assert(t[19] == h[16]);
    assert(hex_digit(4) == '4');
    assert(hex_digit(8) == '8');
    assert(hex_digit(9) == '9');
    assert(hex_digit(10) == 'a');
    assert(hex_digit(11) == 'b');
    assert forall|j: int| 0 <= j < 36 implies if j == 8 || j == 13 || j == 18 || j == 23 {
        t[j] == '-'
    } else {
        is_lower_hex(#[trigger] t[j])
    } by {
        if j < 8 {
            assert(t[j] == h[j]);
        } else if j == 8 || j == 13 || j == 18 || j == 23 {
        } else if j < 13 {
            assert(t[j] == h[j - 1]);
        } else if j < 18 {
            assert(t[j] == h[j - 2]);
        } else if j < 23 {
            assert(t[j] == h[j - 3]);
        } else {
            assert(t[j] == h[j - 4]);
        }
    }
}

/// A fresh random UUID in hyphenated lowercase form, or `None` when the
/// random source fails.
pub(crate) fn new_uuid() -> (r: Option<String>)
    ensures
        r matches Some(t) ==> is_uuid_v4_text(t@) && exists|random: Seq<u8>|
            random.len() == 16 && t@ == #[trigger] uuid_text(random),
{
    let bytes = match random_bytes(16) {
        Some(b) => b,
        None => {
            return None;
        },
    };
    let random: [u8; 16] = [
        bytes[0],
        bytes[1],
        bytes[2],
        bytes[3],
        bytes[4],
        bytes[5],
        bytes[6],
        bytes[7],
        bytes[8],
        bytes[9],
        bytes[10],
        bytes[11],
        bytes[12],
        bytes[13],
        bytes[14],
        bytes[15],
    ];
    proof {
        lemma_uuid_text_form(random@);
    }
    Some(uuid_from_random_bytes(random))
}

} // verus!
