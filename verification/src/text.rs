//! Text as it lies in a course file: UTF-16 code units, least significant
//! byte first, in a region of fixed length that zero units fill up.

use crate::wire::{u16_of, zeros};
use vstd::prelude::*;
use vstd::string::*;
use vstd::utf8::{char_is_scalar, char_u32_cast, encode_scalar, encode_utf8};

verus! {

/// Number of bytes that a text may take in UTF-8 to fit a course.
pub const MAX_TEXT_LEN: usize = 75;

/// Length in bytes of a text region.
pub const TEXT_REGION_LEN: usize = 150;

/// The code units of a region: its bytes pair by pair. A last byte without a
/// partner is left out.
pub open spec fn units_of_bytes(bytes: Seq<u8>) -> Seq<u16> {
    Seq::new((bytes.len() / 2) as nat, |i: int| u16_of(bytes[2 * i], bytes[2 * i + 1]))
}

/// The bytes of code units, least significant byte first.
pub open spec fn bytes_of_units(units: Seq<u16>) -> Seq<u8> {
    Seq::new(
        2 * units.len(),
        |i: int|
            if i % 2 == 0 {
                (units[i / 2] as int % 0x100) as u8
            } else {
                (units[i / 2] as int / 0x100) as u8
            },
    )
}

/// The units in front of the first zero unit, or all of them where none is
/// zero.
pub open spec fn until_zero(units: Seq<u16>) -> Seq<u16>
    decreases units.len(),
{
    if units.len() == 0 || units[0] == 0 {
        Seq::empty()
    } else {
        seq![units[0]] + until_zero(units.drop_first())
    }
}

pub open spec fn is_high_surrogate(u: u16) -> bool {
    0xD800 <= u <= 0xDBFF
}

pub open spec fn is_low_surrogate(u: u16) -> bool {
    0xDC00 <= u <= 0xDFFF
}

/// The code point that a surrogate pair stands for.
pub open spec fn pair_value(high: u16, low: u16) -> int {
    0x1_0000 + (high - 0xD800) * 0x400 + (low - 0xDC00)
}

/// The text that code units stand for. A unit outside the surrogate range is
/// a character; a high surrogate with a low one behind it is a character;
/// every other surrogate stands for U+FFFD.
pub open spec fn utf16_decode_lossy(units: Seq<u16>) -> Seq<char>
    decreases units.len(),
{
    if units.len() == 0 {
        Seq::empty()
    } else if !is_high_surrogate(units[0]) && !is_low_surrogate(units[0]) {
        seq![units[0] as char] + utf16_decode_lossy(units.skip(1))
    } else if is_high_surrogate(units[0]) && units.len() >= 2 && is_low_surrogate(units[1]) {
        seq![pair_value(units[0], units[1]) as char] + utf16_decode_lossy(units.skip(2))
    } else {
        seq!['\u{FFFD}'] + utf16_decode_lossy(units.skip(1))
    }
}

/// The one or two code units of a character.
pub open spec fn units_of_char(c: char) -> Seq<u16> {
    let v = c as u32;
    if v < 0x1_0000 {
        seq![v as u16]
    } else {
        seq![(0xD800 + (v - 0x1_0000) / 0x400) as u16, (0xDC00 + (v - 0x1_0000) % 0x400) as u16]
    }
}

/// The code units of a text.
pub open spec fn utf16_encode(chars: Seq<char>) -> Seq<u16>
    decreases chars.len(),
{
    if chars.len() == 0 {
        Seq::empty()
    } else {
        units_of_char(chars[0]) + utf16_encode(chars.drop_first())
    }
}

/// The text of a region: the characters of its code units up to the first
/// zero unit.
pub open spec fn text_of_region(bytes: Seq<u8>) -> Seq<char> {
    utf16_decode_lossy(until_zero(units_of_bytes(bytes)))
}

/// The region of `len` bytes that holds a text: its code units, then zeros.
pub open spec fn region_of_text(chars: Seq<char>, len: nat) -> Seq<u8> {
    let bytes = bytes_of_units(utf16_encode(chars));
    bytes + zeros((len - bytes.len()) as nat)
}

/// Trusted: calls `String::from_utf16_lossy` of std, which decodes UTF-16 and
/// puts U+FFFD in place of each surrogate that has no partner. The contract
/// states the text that comes back.
#[verifier::external_body]
fn string_from_utf16_lossy(units: &[u16]) -> (s: String)
    ensures
        s@ == utf16_decode_lossy(units@),
{
    String::from_utf16_lossy(units)
}

/// The code units of a text followed by one more character.
pub proof fn lemma_encode_push(chars: Seq<char>, c: char)
    ensures
        utf16_encode(chars.push(c)) == utf16_encode(chars) + units_of_char(c),
    decreases chars.len(),
{
    if chars.len() == 0 {
        assert(chars.push(c).drop_first() =~= Seq::<char>::empty());
        assert(utf16_encode(chars.push(c)) =~= units_of_char(c) + utf16_encode(Seq::empty()));
        assert(utf16_encode(chars.push(c)) =~= utf16_encode(chars) + units_of_char(c));
    } else {
        lemma_encode_push(chars.drop_first(), c);
        assert(chars.push(c).drop_first() =~= chars.drop_first().push(c));
        assert(utf16_encode(chars.push(c)) =~= units_of_char(chars[0]) + (utf16_encode(
            chars.drop_first(),
        ) + units_of_char(c)));
        assert(utf16_encode(chars.push(c)) =~= utf16_encode(chars) + units_of_char(c));
    }
}

/// The UTF-16 code units of a text.
pub fn utf16_units_of(text: &str) -> (units: Vec<u16>)
    ensures
        units@ == utf16_encode(text@),
{
    let count: usize = text.unicode_len();
    let mut units: Vec<u16> = Vec::new();
    let mut i: usize = 0;
    while i < count
        invariant
            0 <= i <= count,
            count == text@.len(),
            units@ == utf16_encode(text@.subrange(0, i as int)),
        decreases count - i,
    {
        let c: char = text.get_char(i);
        let value: u32 = c as u32;
        proof {
            char_is_scalar(c);
            lemma_encode_push(text@.subrange(0, i as int), c);
            assert(text@.subrange(0, i + 1) =~= text@.subrange(0, i as int).push(c));
        }
        if value < 0x1_0000 {
            units.push(value as u16);
            assert(units@ =~= utf16_encode(text@.subrange(0, i as int)) + units_of_char(c));
        } else {
            let high: u16 = (0xD800 + (value - 0x1_0000) / 0x400) as u16;
            let low: u16 = (0xDC00 + (value - 0x1_0000) % 0x400) as u16;
            units.push(high);
            units.push(low);
            assert(units@ =~= utf16_encode(text@.subrange(0, i as int)) + units_of_char(c));
        }
        i += 1;
    }
    assert(text@.subrange(0, count as int) =~= text@);
    units
}

/// Reads the text of a region.
pub fn get_utf16_string_from_slice(bytes: &[u8]) -> (s: String)
    ensures
        s@ == text_of_region(bytes@),
{
    let len: usize = bytes.len();
    let n: usize = len / 2;
    let mut units: Vec<u16> = Vec::new();
    let mut i: usize = 0;
    let ghost all = units_of_bytes(bytes@);
    while i < n
        invariant
            len == bytes@.len(),
            n == len / 2,
            all == units_of_bytes(bytes@),
            0 <= i <= n,
            units@ == all.subrange(0, i as int),
            forall|k: int| 0 <= k < i ==> all[k] != 0,
        decreases n - i,
    {
        let unit: u16 = bytes[2 * i] as u16 + bytes[2 * i + 1] as u16 * 0x100;
        if unit == 0 {
            proof {
                lemma_until_zero_at(all, i as int);
            }
            return string_from_utf16_lossy(units.as_slice());
        }
        units.push(unit);
        i += 1;
        assert(units@ =~= all.subrange(0, i as int));
    }
    proof {
        lemma_until_zero_none(all);
        assert(all.subrange(0, n as int) =~= all);
    }
    string_from_utf16_lossy(units.as_slice())
}

/// Where the first zero unit stands at `at`, the text's units are those in
/// front of it.
pub proof fn lemma_until_zero_at(units: Seq<u16>, at: int)
    requires
        0 <= at < units.len(),
        units[at] == 0,
        forall|k: int| 0 <= k < at ==> units[k] != 0,
    ensures
        until_zero(units) == units.subrange(0, at),
    decreases at,
{
    if at == 0 {
        assert(units.subrange(0, 0) =~= Seq::<u16>::empty());
    } else {
        let rest = units.drop_first();
        assert forall|k: int| 0 <= k < at - 1 implies rest[k] != 0 by {
            assert(rest[k] == units[k + 1]);
        }
        lemma_until_zero_at(rest, at - 1);
        assert(units.subrange(0, at) =~= seq![units[0]] + rest.subrange(0, at - 1));
    }
}

/// Where no unit is zero, the text's units are all of them.
pub proof fn lemma_until_zero_none(units: Seq<u16>)
    requires
        forall|k: int| 0 <= k < units.len() ==> units[k] != 0,
    ensures
        until_zero(units) == units,
    decreases units.len(),
{
    if units.len() > 0 {
        let rest = units.drop_first();
        assert forall|k: int| 0 <= k < rest.len() implies rest[k] != 0 by {
            assert(rest[k] == units[k + 1]);
        }
        lemma_until_zero_none(rest);
        assert(units =~= seq![units[0]] + rest);
    } else {
        assert(units =~= Seq::<u16>::empty());
    }
}

/// Writes a text into a region of 150 bytes: its code units, least
/// significant byte first, then zeros.
pub fn encode_text_region(text: &str) -> (region: Vec<u8>)
    requires
        encode_utf8(text@).len() <= MAX_TEXT_LEN,
    ensures
        region@ == region_of_text(text@, TEXT_REGION_LEN as nat),
        region@.len() == TEXT_REGION_LEN,
{
    let units: Vec<u16> = utf16_units_of(text);
    proof {
        lemma_utf16_no_longer_than_utf8(text@);
    }
    let mut region: Vec<u8> = Vec::new();
    let mut i: usize = 0;
    while i < units.len()
        invariant
            0 <= i <= units@.len() <= MAX_TEXT_LEN,
            region@ == bytes_of_units(units@.subrange(0, i as int)),
        decreases units@.len() - i,
    {
        let unit: u16 = units[i];
        region.push((unit % 0x100) as u8);
        region.push((unit / 0x100) as u8);
        i += 1;
        assert(region@ =~= bytes_of_units(units@.subrange(0, i as int)));
    }
    assert(units@.subrange(0, i as int) =~= units@);
    let ghost bytes = region@;
    while region.len() < TEXT_REGION_LEN
        invariant
            bytes.len() <= region@.len() <= TEXT_REGION_LEN,
            region@ == bytes + zeros((region@.len() - bytes.len()) as nat),
        decreases TEXT_REGION_LEN - region@.len(),
    {
        region.push(0);
        assert(region@ =~= bytes + zeros((region@.len() - bytes.len()) as nat));
    }
    region
}

/// A text takes no more UTF-16 code units than UTF-8 bytes.
pub proof fn lemma_utf16_no_longer_than_utf8(chars: Seq<char>)
    ensures
        utf16_encode(chars).len() <= encode_utf8(chars).len(),
    decreases chars.len(),
{
    if chars.len() > 0 {
        lemma_utf16_no_longer_than_utf8(chars.drop_first());
        char_is_scalar(chars[0]);
        let v = chars[0] as u32;
        assert(units_of_char(chars[0]).len() <= encode_scalar(v).len());
        assert(utf16_encode(chars).len() == units_of_char(chars[0]).len() + utf16_encode(
            chars.drop_first(),
        ).len());
        assert(encode_utf8(chars).len() == encode_scalar(v).len() + encode_utf8(
            chars.drop_first(),
        ).len());
    }
}

/// The code units of a text without the character U+0000 hold no zero.
pub proof fn lemma_encode_has_no_zero(chars: Seq<char>)
    requires
        forall|k: int| 0 <= k < chars.len() ==> chars[k] != '\0',
    ensures
        forall|k: int| 0 <= k < utf16_encode(chars).len() ==> utf16_encode(chars)[k] != 0,
    decreases chars.len(),
{
    if chars.len() > 0 {
        let rest = chars.drop_first();
        assert forall|k: int| 0 <= k < rest.len() implies rest[k] != '\0' by {
            assert(rest[k] == chars[k + 1]);
        }
        lemma_encode_has_no_zero(rest);
        assert(chars[0] != '\0');
        char_is_scalar(chars[0]);
        let first = units_of_char(chars[0]);
        char_u32_cast(chars[0], chars[0] as u32);
        char_u32_cast('\0', 0u32);
        assert(chars[0] as u32 != 0);
        assert(forall|k: int| 0 <= k < first.len() ==> first[k] != 0);
        assert(utf16_encode(chars) == first + utf16_encode(rest));
    }
}

/// Decoding the code units of a text gives the text.
pub proof fn lemma_decode_encode(chars: Seq<char>)
    ensures
        utf16_decode_lossy(utf16_encode(chars)) == chars,
    decreases chars.len(),
{
    if chars.len() == 0 {
        assert(utf16_decode_lossy(utf16_encode(chars)) =~= chars);
    } else {
        let c = chars[0];
        let rest = chars.drop_first();
        let units = utf16_encode(chars);
        lemma_decode_encode(rest);
        char_is_scalar(c);
        let v = c as u32;
        char_u32_cast(c, v);
        assert(units == units_of_char(c) + utf16_encode(rest));
        if v < 0x1_0000 {
            assert(units.skip(1) =~= utf16_encode(rest));
            assert(units[0] == v as u16);
            assert(!is_high_surrogate(units[0]) && !is_low_surrogate(units[0]));
            assert(units[0] as u32 == v);
            assert(units[0] as char == c);
        } else {
            assert(units.skip(2) =~= utf16_encode(rest));
            let high = 0xD800 + (v - 0x1_0000) / 0x400;
            let low = 0xDC00 + (v - 0x1_0000) % 0x400;
            assert(0xD800 <= high <= 0xDBFF);
            assert(0xDC00 <= low <= 0xDFFF);
            assert(units[0] == high as u16);
            assert(units[1] == low as u16);
            assert(pair_value(units[0], units[1]) == v);
            assert(pair_value(units[0], units[1]) as u32 == v);
            assert(pair_value(units[0], units[1]) as char == c);
        }
        assert(chars =~= seq![c] + rest);
    }
}

/// The units of a region that holds code units and then zero bytes.
pub proof fn lemma_units_of_padded(units: Seq<u16>, len: nat)
    requires
        2 * units.len() <= len,
    ensures
        units_of_bytes(
            bytes_of_units(units) + zeros((len - 2 * units.len()) as nat),
        ) == units + Seq::new((len / 2 - units.len()) as nat, |i: int| 0u16),
{
    let bytes = bytes_of_units(units) + zeros((len - 2 * units.len()) as nat);
    let expected = units + Seq::new((len / 2 - units.len()) as nat, |i: int| 0u16);
    assert(units_of_bytes(bytes).len() == expected.len());
    assert forall|i: int| 0 <= i < expected.len() implies units_of_bytes(bytes)[i] == expected[i] by {
        if i < units.len() {
            assert(bytes[2 * i] == (units[i] as int % 0x100) as u8);
            assert(bytes[2 * i + 1] == (units[i] as int / 0x100) as u8);
        } else {
            assert(bytes[2 * i] == 0);
            assert(bytes[2 * i + 1] == 0);
        }
    }
    assert(units_of_bytes(bytes) =~= expected);
}

/// Units without a zero, followed by zero units, end at the first of these.
pub proof fn lemma_until_zero_of_padded(units: Seq<u16>, zeros: nat)
    requires
        forall|k: int| 0 <= k < units.len() ==> units[k] != 0,
    ensures
        until_zero(units + Seq::new(zeros, |i: int| 0u16)) == units,
{
    let all = units + Seq::new(zeros, |i: int| 0u16);
    if zeros == 0 {
        assert(all =~= units);
        lemma_until_zero_none(units);
    } else {
        lemma_until_zero_at(all, units.len() as int);
        assert(all.subrange(0, units.len() as int) =~= units);
    }
}

/// A text that fits a region and holds no character U+0000 is read back from
/// the region as it was written.
pub proof fn lemma_text_round_trip(chars: Seq<char>, len: nat)
    requires
        2 * utf16_encode(chars).len() <= len,
        forall|k: int| 0 <= k < chars.len() ==> chars[k] != '\0',
    ensures
        text_of_region(region_of_text(chars, len)) == chars,
{
    let units = utf16_encode(chars);
    lemma_units_of_padded(units, len);
    lemma_encode_has_no_zero(chars);
    lemma_until_zero_of_padded(units, (len / 2 - units.len()) as nat);
    lemma_decode_encode(chars);
}

} // verus!
