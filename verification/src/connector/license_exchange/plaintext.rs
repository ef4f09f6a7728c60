//! How a granted license reads once it is deciphered: a version of four bytes and four
//! fields, each after its length.
//!
//! The protocol crate makes sure that a field lies inside the license before it reads it,
//! but takes it that the length of the next one does.
use vstd::prelude::*;

use super::super::wire::license::{decode_text, CharacterSet};

verus! {

/// Bytes of the version, and of the length in front of a field.
pub const NUMBER_SIZE: usize = 4;

/// Bytes of the version and the four lengths. Anything shorter is no license.
pub const FIXED_SIZE: usize = 20;

/// The last of the fields: the license itself. The scope, the company and the product
/// before it are texts.
pub const LAST_FIELD: usize = 3;

/// The number whose four bytes stand at `at`, the lowest first.
pub open spec fn number_at(bytes: Seq<u8>, at: int) -> int {
    bytes[at] + 0x100 * bytes[at + 1] + 0x1_0000 * bytes[at + 2] + 0x100_0000 * bytes[at + 3]
}

/// The character set of a text field: the scope is in the narrow one.
pub open spec fn character_set_of(field: int) -> CharacterSet {
    if field == 0 {
        CharacterSet::Ansi
    } else {
        CharacterSet::Unicode
    }
}

/// Reading on from `at`, where the length of a field stands, comes to no length that lies
/// outside: it gets through the last field, or stops before at a field that lies outside
/// or at a text that is none.
pub open spec fn holds_lengths_from(bytes: Seq<u8>, at: int, field: int) -> bool
    decreases LAST_FIELD - field,
{
    let start = at + NUMBER_SIZE;
    let end = start + number_at(bytes, at);
    if start > bytes.len() {
        false
    } else if end > bytes.len() || field >= LAST_FIELD {
        true
    } else if super::super::wire::license::text_of(
        bytes.subrange(start, end),
        character_set_of(field),
    ) is None {
        true
    } else {
        holds_lengths_from(bytes, end, field + 1)
    }
}

/// Reading a license comes to no length that lies outside.
pub open spec fn holds_lengths(license: Seq<u8>) -> bool {
    license.len() < FIXED_SIZE || holds_lengths_from(license, NUMBER_SIZE as int, 0)
}

/// The number whose four bytes stand at `at`, the lowest first.
fn read_number(bytes: &[u8], at: usize) -> (number: u32)
    requires
        at + NUMBER_SIZE <= bytes@.len(),
    ensures
        number == number_at(bytes@, at as int),
{
    bytes[at] as u32 + 0x100 * bytes[at + 1] as u32 + 0x1_0000 * bytes[at + 2] as u32
        + 0x100_0000 * bytes[at + 3] as u32
}

/// Whether reading a license comes to no length that lies outside.
pub fn license_holds_lengths(license: &[u8]) -> (holds: bool)
    ensures
        holds == holds_lengths(license@),
{
    let len: usize = license.len();
    if len < FIXED_SIZE {
        return true;
    }
    let mut at: usize = NUMBER_SIZE;
    let mut field: usize = 0;
    while field < LAST_FIELD
        invariant
            len == license@.len(),
            at <= len,
            field <= LAST_FIELD,
            holds_lengths(license@) == holds_lengths_from(license@, at as int, field as int),
        decreases LAST_FIELD - field,
    {
        if len - at < NUMBER_SIZE {
            return false;
        }
        let start: usize = at + NUMBER_SIZE;
        let number: u32 = read_number(license, at);
        if len - start < number as usize {
            return true;
        }
        let end: usize = start + number as usize;
        let character_set: CharacterSet = if field == 0 {
            CharacterSet::Ansi
        } else {
            CharacterSet::Unicode
        };
        let text: &[u8] = vstd::slice::slice_subrange(license, start, end);
        if decode_text(text, character_set).is_err() {
            return true;
        }
        at = end;
        field += 1;
    }
    len - at >= NUMBER_SIZE
}

/// The number at a place: its bytes are the digits in base 256, the lowest first.
pub proof fn law_numbers_are_little_endian(bytes: Seq<u8>, at: int)
    ensures
        number_at(bytes, at) % 256 == bytes[at],
        number_at(bytes, at) / 256 % 256 == bytes[at + 1],
        number_at(bytes, at) / 65536 % 256 == bytes[at + 2],
        number_at(bytes, at) / 16777216 == bytes[at + 3],
{
}

/// A license of at least 20 bytes is refused if and only if a length that is come to lies
/// outside: that of the company, the product or the license itself, each after a text that
/// lies inside and is one. A shorter one is refused by no length.
pub proof fn law_only_a_length_outside_is_refused(license: Seq<u8>, a: int, b: int, c: int)
    requires
        a == 8 + number_at(license, 4),
        b == a + 4 + number_at(license, a),
        c == b + 4 + number_at(license, b),
    ensures
        ({
            let len = license.len() as int;
            let scope = a <= len && super::super::wire::license::text_of(
                license.subrange(8, a),
                CharacterSet::Ansi,
            ) is Some;
            let company = scope && a + 4 <= len && b <= len
                && super::super::wire::license::text_of(
                license.subrange(a + 4, b),
                CharacterSet::Unicode,
            ) is Some;
            let product = company && b + 4 <= len && c <= len
                && super::super::wire::license::text_of(
                license.subrange(b + 4, c),
                CharacterSet::Unicode,
            ) is Some;
            &&& len < 20 ==> holds_lengths(license)
            &&& len >= 20 ==> (!holds_lengths(license) <==> scope && a + 4 > len || company && b + 4
                > len || product && c + 4 > len)
        }),
{
    reveal_with_fuel(holds_lengths_from, 4);
    if license.len() >= 20 {
        let len = license.len() as int;
        assert(holds_lengths(license) == holds_lengths_from(license, 4, 0));
        if a <= len {
            assert(holds_lengths_from(license, a, 1) == (a + 4 <= len && (b > len
                || super::super::wire::license::text_of(
                license.subrange(a + 4, b),
                CharacterSet::Unicode,
            ) is None || holds_lengths_from(license, b, 2))));
            assert(holds_lengths_from(license, b, 2) == (b + 4 <= len && (c > len
                || super::super::wire::license::text_of(
                license.subrange(b + 4, c),
                CharacterSet::Unicode,
            ) is None || holds_lengths_from(license, c, 3))));
            assert(holds_lengths_from(license, c, 3) == (c + 4 <= len));
        }
    }
}

} // verus!
