use crate::errors::BadLength;
use crate::errors::InvalidChar;
use crate::parse::ParseHexStr;
use crate::parse::first_non_hex;
use crate::parse::hex_byte;
use crate::parse::is_hex_digit;
use crate::parse::lemma_all_hex;
use crate::parse::nibble_value;
use crate::parse::spec_hex_decode;
use crate::serialize::Serializable;
use vstd::prelude::*;
use vstd::string::StringExecFns;
use vstd::string::StrSliceExecFns;
use vstd::utf8::encode_utf8;
use vstd::utf8::is_ascii_chars;
use vstd::utf8::is_ascii_chars_encode_utf8;

verus! {

/// The hexadecimal digit character for the 4-bit value `v`: `0-9` then
/// `a-f`, or `A-F` when `upper` is set.
pub open spec fn nibble_char(v: u8, upper: bool) -> char
    recommends
        v < 16,
{
    if v < 10 {
        (48 + v) as char
    } else if upper {
        (55 + v) as char
    } else {
        (87 + v) as char
    }
}

/// The hexadecimal text for `b`: two digit characters per byte, high nibble
/// first.
pub open spec fn spec_hex_chars(b: Seq<u8>, upper: bool) -> Seq<char> {
    Seq::new(
        2 * b.len(),
        |i: int|
            if i % 2 == 0 {
                nibble_char(b[i / 2] / 16, upper)
            } else {
                nibble_char(b[i / 2] % 16, upper)
            },
    )
}

/// The `0x` marker put in front of the digits on an alternate-format
/// request, or nothing.
pub open spec fn spec_hex_prefix(alternate: bool) -> Seq<char> {
    if alternate {
        seq!['0', 'x']
    } else {
        Seq::<char>::empty()
    }
}

/// The one-character string of the hexadecimal digit for the 4-bit value
/// `v`.
fn nibble_str(v: u8, upper: bool) -> (s: &'static str)
    requires
        v < 16,
    ensures
        s@ =~= seq![nibble_char(v, upper)],
{
    let digits = if upper {
        "0123456789ABCDEF"
    } else {
        "0123456789abcdef"
    };
    proof {
        reveal_strlit("0123456789ABCDEF");
        reveal_strlit("0123456789abcdef");
    }
    digits.substring_ascii(v as usize, v as usize + 1)
}

/// Format the wire representation of `value` as hexadecimal text: two digit
/// characters per byte, high nibble first, lowercase by default, uppercase
/// on request, with a `0x` prefix on an alternate-formatting request.
pub fn to_hex_string<T, const N: usize>(value: &T, upper: bool, alternate: bool) -> (s: String) where
    T: Serializable<N>,

    ensures
        s@ == spec_hex_prefix(alternate) + spec_hex_chars(value.spec_to_bytes(), upper),
{
    let bytes = value.to_bytes();
    let mut s = String::new();
    if alternate {
        proof {
            reveal_strlit("0x");
        }
        s.append("0x");
    }
    proof {
        assert(s@ =~= spec_hex_prefix(alternate));
        assert(s@ + spec_hex_chars(bytes@.take(0), upper) =~= s@);
    }
    let ghost prefix = s@;
    let mut i: usize = 0;
    while i < N
        invariant
            0 <= i <= N,
            bytes@.len() == N,
            bytes@ == value.spec_to_bytes(),
            s@ == prefix + spec_hex_chars(bytes@.take(i as int), upper),
            prefix == spec_hex_prefix(alternate),
        decreases N - i,
    {
        let b = bytes[i];
        s.append(nibble_str(b / 16, upper));
        s.append(nibble_str(b % 16, upper));
        proof {
            assert(spec_hex_chars(bytes@.take(i + 1), upper) =~= spec_hex_chars(
                bytes@.take(i as int),
                upper,
            ) + seq![nibble_char(b / 16, upper), nibble_char(b % 16, upper)]);
            assert(s@ =~= prefix + spec_hex_chars(bytes@.take(i + 1), upper));
        }
        i += 1;
    }
    proof {
        assert(bytes@.take(N as int) =~= bytes@);
    }
    s
}

/// Hexadecimal formatting only ever produces ASCII characters.
pub proof fn lemma_hex_chars_ascii(b: Seq<u8>, upper: bool, alternate: bool)
    ensures
        is_ascii_chars(spec_hex_prefix(alternate) + spec_hex_chars(b, upper)),
        is_ascii_chars(spec_hex_chars(b, upper)),
{
    let all = spec_hex_prefix(alternate) + spec_hex_chars(b, upper);
    assert forall|i: int| 0 <= i < all.len() implies '\0' <= #[trigger] all[i] <= '\u{7f}' by {
        if alternate && i < 2 {
            assert('0' as u32 == 48 && 'x' as u32 == 120);
        }
    }
    assert forall|i: int|
        0 <= i < spec_hex_chars(b, upper).len() implies '\0' <= #[trigger] spec_hex_chars(
        b,
        upper,
    )[i] <= '\u{7f}' by {}
}

/// The hex round-trip law, byte level: the UTF-8 bytes of the lowercase (or
/// uppercase) hexadecimal text of `b` are twice as many as `b`'s, all of
/// them hexadecimal digits, and decoding them pairwise gives back `b`.
pub proof fn lemma_hex_round_trip(b: Seq<u8>, upper: bool)
    ensures
        encode_utf8(spec_hex_chars(b, upper)).len() == 2 * b.len(),
        first_non_hex(encode_utf8(spec_hex_chars(b, upper)), 2 * b.len() as int) == 2 * b.len(),
        spec_hex_decode(encode_utf8(spec_hex_chars(b, upper)), b.len() as int) =~= b,
{
    let chars = spec_hex_chars(b, upper);
    let bytes = encode_utf8(chars);
    lemma_hex_chars_ascii(b, upper, false);
    is_ascii_chars_encode_utf8(chars);
    assert forall|k: int| 0 <= k < 2 * b.len() implies is_hex_digit(#[trigger] bytes[k]) by {
        assert(bytes[k] == chars[k] as u8);
    }
    lemma_all_hex(bytes, 2 * b.len() as int);
    assert forall|j: int| 0 <= j < b.len() implies spec_hex_decode(bytes, b.len() as int)[j]
        == b[j] by {
        assert(bytes[2 * j] == chars[2 * j] as u8);
        assert(bytes[2 * j + 1] == chars[2 * j + 1] as u8);
        assert(hex_byte(chars[2 * j] as u8, chars[2 * j + 1] as u8) == b[j]);
    }
}

/// The hex round-trip law for a [`Serializable`] type: parsing the
/// hexadecimal text of a value's wire representation recovers the value.
pub proof fn lemma_hex_str_round_trip<T, const N: usize>(v: T, upper: bool) where T: Serializable<N>
    ensures
        encode_utf8(spec_hex_chars(v.spec_to_bytes(), upper)).len() == 2 * N,
        first_non_hex(encode_utf8(spec_hex_chars(v.spec_to_bytes(), upper)), 2 * N) == 2 * N,
        T::spec_from_bytes(
            spec_hex_decode(encode_utf8(spec_hex_chars(v.spec_to_bytes(), upper)), N as int),
        ) == Some(v),
{
    v.lemma_round_trip();
    lemma_hex_round_trip(v.spec_to_bytes(), upper);
    assert(spec_hex_decode(encode_utf8(spec_hex_chars(v.spec_to_bytes(), upper)), N as int)
        == v.spec_to_bytes());
}

/// The hex round-trip law, executable form: formatting a value's wire bytes
/// as lowercase hexadecimal text and parsing the text back always succeeds
/// and yields a value equal to the one formatted.
pub fn hex_encode_parse<T, const N: usize>(value: &T) -> (r: Result<T, T::Error>) where
    T: ParseHexStr<N>,
    T::Error: BadLength + InvalidChar,

    requires
        2 * N <= usize::MAX,
    ensures
        r matches Ok(w) && w == *value,
{
    let s = to_hex_string(value, false, false);
    proof {
        lemma_hex_str_round_trip::<T, N>(*value, false);
        value.lemma_round_trip();
        assert(s@ =~= spec_hex_chars(value.spec_to_bytes(), false));
    }
    T::from_hex_str(s.as_str())
}

} // verus!
