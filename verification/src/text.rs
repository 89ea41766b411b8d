//! Decimal and hexadecimal text.

use vstd::prelude::*;
use vstd::utf8::{
    encode_scalar, encode_utf8, encode_utf8_first_scalar, is_ascii_chars, is_ascii_chars_encode_utf8,
};

verus! {

/// The ten decimal digits, in order.
pub open spec fn decimal_digits() -> Seq<char> {
    seq!['0', '1', '2', '3', '4', '5', '6', '7', '8', '9']
}

/// The decimal text of `n`, most significant digit first.
pub open spec fn decimal(n: nat) -> Seq<char>
    decreases n,
{
    if n < 10 {
        seq![decimal_digits()[n as int]]
    } else {
        decimal(n / 10).push(decimal_digits()[(n % 10) as int])
    }
}

/// One decimal digit as text.
fn digit_text(d: usize) -> (s: &'static str)
    requires
        d < 10,
    ensures
        s@ == seq![decimal_digits()[d as int]],
{
    proof {
        reveal_strlit("0");
        reveal_strlit("1");
        reveal_strlit("2");
        reveal_strlit("3");
        reveal_strlit("4");
        reveal_strlit("5");
        reveal_strlit("6");
        reveal_strlit("7");
        reveal_strlit("8");
        reveal_strlit("9");
    }
    match d {
        0 => "0",
        1 => "1",
        2 => "2",
        3 => "3",
        4 => "4",
        5 => "5",
        6 => "6",
        7 => "7",
        8 => "8",
        _ => "9",
    }
}

/// Writes `n` in decimal.
pub fn decimal_text(n: usize) -> (s: String)
    ensures
        s@ == decimal(n as nat),
    decreases n,
{
    if n < 10 {
        digit_text(n).to_owned()
    } else {
        let mut s = decimal_text(n / 10);
        s.append(digit_text(n % 10));
        s
    }
}

/// The lower case of an ASCII letter; any other character is left as it is.
pub open spec fn ascii_lower(c: char) -> char {
    if 'A' <= c <= 'Z' {
        (c as u32 + 32) as char
    } else {
        c
    }
}

/// The lower case of an ASCII letter, given as a byte; any other byte is left as it is.
pub open spec fn lower_byte(b: u8) -> u8 {
    if 0x41 <= b <= 0x5A {
        (b + 32) as u8
    } else {
        b
    }
}

/// Whether two texts are the same but for the case of ASCII letters.
pub open spec fn same_but_for_case(text1: Seq<char>, text2: Seq<char>) -> bool {
    text1.map_values(|c: char| ascii_lower(c)) == text2.map_values(|c: char| ascii_lower(c))
}

/// Whether two texts, given as bytes, are the same but for the case of ASCII letters.
pub open spec fn same_bytes_but_for_case(text1: Seq<u8>, text2: Seq<u8>) -> bool {
    text1.map_values(|b: u8| lower_byte(b)) == text2.map_values(|b: u8| lower_byte(b))
}

/// The sixteen hexadecimal digits in lower case, in order.
pub open spec fn hex_digits() -> Seq<char> {
    seq!['0', '1', '2', '3', '4', '5', '6', '7', '8', '9', 'a', 'b', 'c', 'd', 'e', 'f']
}

/// The value of a hexadecimal digit, of either case, given as an ASCII byte.
pub open spec fn hex_digit_value(b: u8) -> Option<u8> {
    if 0x30 <= b <= 0x39 {
        Some((b - 0x30) as u8)
    } else if 0x41 <= b <= 0x46 {
        Some((b - 0x41 + 10) as u8)
    } else if 0x61 <= b <= 0x66 {
        Some((b - 0x61 + 10) as u8)
    } else {
        None
    }
}

/// How many hexadecimal digits `text` begins with.
pub open spec fn leading_hex(text: Seq<u8>) -> nat
    decreases text.len(),
{
    if text.len() > 0 && hex_digit_value(text[0]) is Some {
        1 + leading_hex(text.drop_first())
    } else {
        0
    }
}

/// The bytes that pairs of hexadecimal digits stand for, high digit first.
pub open spec fn hex_pairs(text: Seq<u8>) -> Seq<u8> {
    Seq::new(
        text.len() / 2,
        |i: int|
            (16 * hex_digit_value(text[2 * i])->0 + hex_digit_value(text[2 * i + 1])->0) as u8,
    )
}

/// Why a text is not hexadecimal.
#[derive(Clone, Copy, Debug, PartialEq, Eq)]
pub enum HexError {
    /// A character that is no hexadecimal digit; a byte is shown as the
    /// character of the same number.
    InvalidCharacter { c: char, index: usize },
    /// The digits do not pair up.
    OddLength,
    /// The text does not fit a container of fixed size.
    InvalidStringLength,
}

/// What hexadecimal text, given as its UTF-8 bytes, decodes to: an odd length is
/// found first, and after that the first byte that is no digit.
pub open spec fn hex_decoding(text: Seq<u8>) -> Result<Seq<u8>, HexError> {
    if text.len() % 2 != 0 {
        Err(HexError::OddLength)
    } else if leading_hex(text) < text.len() {
        Err(
            HexError::InvalidCharacter {
                c: text[leading_hex(text) as int] as char,
                index: leading_hex(text) as usize,
            },
        )
    } else {
        Ok(hex_pairs(text))
    }
}

/// `hex::decode`: the text decodes as [`hex_decoding`] says of its UTF-8 bytes.
#[verifier::external_body]
pub(crate) fn decode_hex(text: &str) -> (r: Result<Vec<u8>, HexError>)
    ensures
        match r {
            Ok(bytes) => hex_decoding(encode_utf8(text@)) == Ok::<Seq<u8>, HexError>(bytes@),
            Err(e) => hex_decoding(encode_utf8(text@)) == Err::<Seq<u8>, HexError>(e),
        },
{
    match hex::decode(text) {
        Ok(bytes) => Ok(bytes),
        Err(hex::FromHexError::InvalidHexCharacter { c, index }) => Err(
            HexError::InvalidCharacter { c, index },
        ),
        Err(hex::FromHexError::OddLength) => Err(HexError::OddLength),
        Err(hex::FromHexError::InvalidStringLength) => Err(HexError::InvalidStringLength),
    }
}

/// How `{:?}` shows a character that it may have to escape.
pub uninterp spec fn char_debug(c: char) -> Seq<char>;

/// A printable ASCII character other than the single quote and the backslash.
pub open spec fn shown_plainly(c: char) -> bool {
    ' ' <= c <= '~' && c != '\'' && c != '\\'
}

/// How `{:?}` shows a character: as it is, between single quotes, where nothing has
/// to be escaped.
pub open spec fn char_shown(c: char) -> Seq<char> {
    if shown_plainly(c) {
        seq!['\'', c, '\'']
    } else {
        char_debug(c)
    }
}

/// How `{:?}` shows a text in which it may have to escape something.
pub uninterp spec fn text_debug(text: Seq<char>) -> Seq<char>;

/// Whether all of a text is printable ASCII other than the double quote and the backslash.
pub open spec fn needs_no_escape(text: Seq<char>) -> bool {
    forall|i: int|
        0 <= i < text.len() ==> ' ' <= #[trigger] text[i] <= '~' && text[i] != '"' && text[i]
            != '\\'
}

/// How `{:?}` shows a text: as it is, between double quotes, where nothing has to be escaped.
pub open spec fn text_shown(text: Seq<char>) -> Seq<char> {
    if needs_no_escape(text) {
        seq!['"'] + text + seq!['"']
    } else {
        text_debug(text)
    }
}

/// The `Debug` text of `str`: the text between double quotes, as it is where nothing has to be
/// escaped, and otherwise what [`text_debug`] names.
#[verifier::external_body]
pub(crate) fn debug_text(text: &str) -> (s: String)
    ensures
        s@ == (if needs_no_escape(text@) {
            seq!['"'] + text@ + seq!['"']
        } else {
            text_debug(text@)
        }),
{
    format!("{:?}", text)
}

/// The text of a [`HexError`].
pub open spec fn hex_error_display(e: HexError) -> Seq<char> {
    match e {
        HexError::InvalidCharacter { c, index } => "Invalid character "@ + char_shown(c)
            + " at position "@ + decimal(index as nat),
        HexError::OddLength => "Odd number of digits"@,
        HexError::InvalidStringLength => "Invalid string length"@,
    }
}

/// The `Display` text of `hex::FromHexError`: fixed words, and for a bad character
/// its `{:?}` form and its position in decimal.
#[verifier::external_body]
fn hex_error_text(e: &HexError) -> (s: String)
    ensures
        match *e {
            HexError::InvalidCharacter { c, index } => s@ == "Invalid character "@ + (
            if shown_plainly(c) {
                seq!['\'', c, '\'']
            } else {
                char_debug(c)
            }) + " at position "@ + decimal(index as nat),
            HexError::OddLength => s@ == "Odd number of digits"@,
            HexError::InvalidStringLength => s@ == "Invalid string length"@,
        },
{
    match *e {
        HexError::InvalidCharacter { c, index } => hex::FromHexError::InvalidHexCharacter {
            c,
            index,
        }.to_string(),
        HexError::OddLength => hex::FromHexError::OddLength.to_string(),
        HexError::InvalidStringLength => hex::FromHexError::InvalidStringLength.to_string(),
    }
}

impl HexError {
    /// The error in words.
    pub fn message(&self) -> (s: String)
        ensures
            s@ == hex_error_display(*self),
    {
        hex_error_text(self)
    }
}

/// Bytes that are the same but for the case of letters are the same digit, or both none.
proof fn lemma_digit_of_either_case(b1: u8, b2: u8)
    requires
        lower_byte(b1) == lower_byte(b2),
    ensures
        hex_digit_value(b1) == hex_digit_value(b2),
{
}

/// Texts that are the same but for the case of letters agree byte by byte.
proof fn lemma_bytes_agree(text1: Seq<u8>, text2: Seq<u8>)
    requires
        same_bytes_but_for_case(text1, text2),
    ensures
        text1.len() == text2.len(),
        forall|i: int| #![trigger text1[i]] #![trigger text2[i]]
            0 <= i < text1.len() ==> lower_byte(text1[i]) == lower_byte(text2[i])
                && hex_digit_value(text1[i]) == hex_digit_value(text2[i]),
{
    let low1 = text1.map_values(|b: u8| lower_byte(b));
    let low2 = text2.map_values(|b: u8| lower_byte(b));
    assert(low1.len() == text1.len() && low2.len() == text2.len());
    assert forall|i: int| #![trigger text1[i]] #![trigger text2[i]] 0 <= i < text1.len() implies
        lower_byte(text1[i]) == lower_byte(text2[i]) && hex_digit_value(text1[i])
        == hex_digit_value(text2[i]) by {
        assert(low1[i] == lower_byte(text1[i]) && low2[i] == lower_byte(text2[i]));
        lemma_digit_of_either_case(text1[i], text2[i]);
    }
}

/// Texts that are the same but for the case of letters begin with as many digits.
proof fn lemma_leading_hex_of_either_case(text1: Seq<u8>, text2: Seq<u8>)
    requires
        same_bytes_but_for_case(text1, text2),
    ensures
        leading_hex(text1) == leading_hex(text2),
        leading_hex(text1) <= text1.len(),
    decreases text1.len(),
{
    lemma_bytes_agree(text1, text2);
    if text1.len() > 0 {
        let rest1 = text1.drop_first();
        let rest2 = text2.drop_first();
        assert forall|i: int| 0 <= i < rest1.len() implies lower_byte(rest1[i]) == lower_byte(
            #[trigger] rest2[i],
        ) by {
            assert(rest1[i] == text1[i + 1] && rest2[i] == text2[i + 1]);
        }
        assert(rest1.map_values(|b: u8| lower_byte(b)) =~= rest2.map_values(
            |b: u8| lower_byte(b),
        ));
        lemma_leading_hex_of_either_case(rest1, rest2);
    }
}

/// What hexadecimal text decodes to does not depend on the case of its letters. Where it does
/// not decode, that does not depend on it either, and a bad character stands at the same place.
pub proof fn letter_case_does_not_matter(text1: Seq<u8>, text2: Seq<u8>)
    requires
        same_bytes_but_for_case(text1, text2),
    ensures
        match hex_decoding(text1) {
            Err(HexError::InvalidCharacter { index, .. }) => hex_decoding(text2) matches Err(
                HexError::InvalidCharacter { index: at, .. },
            ) && at == index,
            decoded => hex_decoding(text2) == decoded,
        },
{
    lemma_bytes_agree(text1, text2);
    lemma_leading_hex_of_either_case(text1, text2);
    assert forall|i: int| 0 <= i < text1.len() / 2 implies hex_pairs(text1)[i] == hex_pairs(
        text2,
    )[i] by {
        assert(hex_digit_value(text1[2 * i]) == hex_digit_value(text2[2 * i]));
        assert(hex_digit_value(text1[2 * i + 1]) == hex_digit_value(text2[2 * i + 1]));
    }
    assert(hex_pairs(text1) =~= hex_pairs(text2));
}

/// The encodings of characters that are the same but for the case of letters are so too.
proof fn lemma_scalars_of_either_case(c1: char, c2: char)
    requires
        ascii_lower(c1) == ascii_lower(c2),
    ensures
        same_bytes_but_for_case(encode_scalar(c1 as u32), encode_scalar(c2 as u32)),
{
    let u1 = c1 as u32;
    let u2 = c2 as u32;
    assert(u1 <= 0x7F ==> (u1 & 0x7F) == u1) by (bit_vector);
    assert(u2 <= 0x7F ==> (u2 & 0x7F) == u2) by (bit_vector);
    if c1 != c2 {
        assert(encode_scalar(u1) =~= seq![u1 as u8]);
        assert(encode_scalar(u2) =~= seq![u2 as u8]);
        assert(seq![u1 as u8].map_values(|b: u8| lower_byte(b)) =~= seq![u2 as u8].map_values(
            |b: u8| lower_byte(b),
        ));
    }
}

/// Texts that are the same but for the case of letters are so as bytes.
pub proof fn case_in_characters_is_case_in_bytes(text1: Seq<char>, text2: Seq<char>)
    requires
        same_but_for_case(text1, text2),
    ensures
        same_bytes_but_for_case(encode_utf8(text1), encode_utf8(text2)),
    decreases text1.len(),
{
    let low1 = text1.map_values(|c: char| ascii_lower(c));
    let low2 = text2.map_values(|c: char| ascii_lower(c));
    assert(low1.len() == text1.len() && low2.len() == text2.len());
    if text1.len() > 0 {
        assert(low1[0] == ascii_lower(text1[0]) && low2[0] == ascii_lower(text2[0]));
        let rest1 = text1.drop_first();
        let rest2 = text2.drop_first();
        assert forall|i: int| 0 <= i < rest1.len() implies ascii_lower(rest1[i]) == ascii_lower(
            #[trigger] rest2[i],
        ) by {
            assert(low1[i + 1] == ascii_lower(text1[i + 1]));
            assert(low2[i + 1] == ascii_lower(text2[i + 1]));
        }
        assert(rest1.map_values(|c: char| ascii_lower(c)) =~= rest2.map_values(
            |c: char| ascii_lower(c),
        ));
        lemma_scalars_of_either_case(text1[0], text2[0]);
        case_in_characters_is_case_in_bytes(rest1, rest2);
        let first1 = encode_scalar(text1[0] as u32);
        let first2 = encode_scalar(text2[0] as u32);
        assert(encode_utf8(text1).map_values(|b: u8| lower_byte(b)) =~= first1.map_values(
            |b: u8| lower_byte(b),
        ) + encode_utf8(rest1).map_values(|b: u8| lower_byte(b)));
        assert(encode_utf8(text2).map_values(|b: u8| lower_byte(b)) =~= first2.map_values(
            |b: u8| lower_byte(b),
        ) + encode_utf8(rest2).map_values(|b: u8| lower_byte(b)));
    }
}

/// The number that decimal digits spell, the first being the most significant.
pub open spec fn decimal_value(text: Seq<char>) -> int
    decreases text.len(),
{
    if text.len() == 0 {
        0
    } else {
        10 * decimal_value(text.drop_last()) + (text.last() as int - '0' as int)
    }
}

/// The decimal text of a number consists of digits, spells that number, and does not begin with
/// a zero unless it is the number zero.
pub proof fn decimal_text_spells_the_number(n: nat)
    ensures
        decimal(n).len() > 0,
        forall|i: int| 0 <= i < decimal(n).len() ==> '0' <= #[trigger] decimal(n)[i] <= '9',
        decimal_value(decimal(n)) == n,
        decimal(n)[0] == '0' <==> n == 0,
    decreases n,
{
    reveal_with_fuel(decimal_value, 2);
    if n >= 10 {
        decimal_text_spells_the_number(n / 10);
        assert(decimal(n).drop_last() =~= decimal(n / 10));
    } else {
        assert(decimal(n).drop_last() =~= Seq::<char>::empty());
    }
}

/// Whether a character is a hexadecimal digit, of either case, for the value `v`.
pub open spec fn stands_for(c: int, v: int) -> bool {
    ||| 0 <= v < 10 && c == 0x30 + v
    ||| 10 <= v < 16 && (c == 0x61 + v - 10 || c == 0x41 + v - 10)
}

/// Whether a text spells bytes in hexadecimal: two digits for each, the high one first.
pub open spec fn spells(text: Seq<char>, bytes: Seq<u8>) -> bool {
    &&& text.len() == 2 * bytes.len()
    &&& forall|k: int|
        0 <= k < bytes.len() ==> stands_for(text[2 * k] as int, #[trigger] bytes[k] as int / 16)
            && stands_for(text[2 * k + 1] as int, bytes[k] as int % 16)
}

/// A byte is a digit exactly where it stands for a value, and then for that one.
proof fn lemma_digit_value(b: u8, v: int)
    ensures
        stands_for(b as int, v) <==> hex_digit_value(b) is Some && hex_digit_value(b)->0 == v,
        hex_digit_value(b) is Some ==> 0 <= hex_digit_value(b)->0 < 16,
{
}

/// How far the digits at the beginning of a text go.
proof fn lemma_leading_hex(text: Seq<u8>)
    ensures
        leading_hex(text) <= text.len(),
        forall|i: int| 0 <= i < leading_hex(text) ==> hex_digit_value(#[trigger] text[i]) is Some,
        leading_hex(text) < text.len() ==> hex_digit_value(text[leading_hex(text) as int]) is None,
    decreases text.len(),
{
    if text.len() > 0 && hex_digit_value(text[0]) is Some {
        let rest = text.drop_first();
        lemma_leading_hex(rest);
        assert forall|i: int| 0 <= i < leading_hex(text) implies hex_digit_value(
            #[trigger] text[i],
        ) is Some by {
            if i > 0 {
                assert(rest[i - 1] == text[i]);
            }
        }
        if leading_hex(text) < text.len() {
            assert(rest[leading_hex(rest) as int] == text[leading_hex(text) as int]);
        }
    }
}

/// A character with a number below 128 is an ASCII character.
proof fn lemma_small_character(c: char)
    requires
        c as u32 <= 0x7F,
    ensures
        '\0' <= c <= '\u{7f}',
{
}

/// Text with bytes below 128 only is text of ASCII characters.
proof fn lemma_ascii_bytes(chars: Seq<char>)
    requires
        forall|i: int| 0 <= i < encode_utf8(chars).len() ==> #[trigger] encode_utf8(chars)[i] < 0x80,
    ensures
        is_ascii_chars(chars),
    decreases chars.len(),
{
    if chars.len() > 0 {
        let bytes = encode_utf8(chars);
        let first = encode_scalar(chars[0] as u32);
        let rest = chars.drop_first();
        encode_utf8_first_scalar(chars);
        let b = bytes[0];
        assert(b < 0x80);
        assert(b < 0x80 ==> b & 0x80u8 == 0) by (bit_vector);
        assert(b < 0x80 ==> b & 0xE0u8 != 0xC0) by (bit_vector);
        assert(b < 0x80 ==> (b & 0x7Fu8) == b) by (bit_vector);
        let c = chars[0];
        assert(c as u32 <= 0x7F);
        lemma_small_character(c);
        assert forall|i: int| 0 <= i < encode_utf8(rest).len() implies #[trigger] encode_utf8(
            rest,
        )[i] < 0x80 by {
            assert(bytes[first.len() + i] == encode_utf8(rest)[i]);
        }
        lemma_ascii_bytes(rest);
        assert forall|i: int| 0 <= i < chars.len() implies '\0' <= #[trigger] chars[i] <= '\u{7f}' by {
            if i > 0 {
                assert(rest[i - 1] == chars[i]);
            } else {
                assert(chars[i] == c);
            }
        }
    }
}

/// A text decodes to bytes exactly where it spells them in hexadecimal.
pub proof fn hexadecimal_text_is_decoded(text: Seq<char>, bytes: Seq<u8>)
    ensures
        spells(text, bytes) <==> hex_decoding(encode_utf8(text)) == Ok::<Seq<u8>, HexError>(bytes),
{
    let utf8 = encode_utf8(text);
    lemma_leading_hex(utf8);
    if spells(text, bytes) {
        assert forall|i: int| 0 <= i < text.len() implies '\0' <= #[trigger] text[i] <= '\u{7f}' by {
            let b = bytes[i / 2];
            assert(i == 2 * (i / 2) || i == 2 * (i / 2) + 1);
        }
        is_ascii_chars_encode_utf8(text);
        assert forall|i: int| 0 <= i < utf8.len() implies hex_digit_value(#[trigger] utf8[i]) is Some by {
            let b = bytes[i / 2];
            assert(utf8[i] == text[i] as u8);
            assert(i == 2 * (i / 2) || i == 2 * (i / 2) + 1);
            lemma_digit_value(utf8[i], b as int / 16);
            lemma_digit_value(utf8[i], b as int % 16);
        }
        assert forall|k: int| 0 <= k < bytes.len() implies hex_pairs(utf8)[k] == bytes[k] by {
            assert(utf8[2 * k] == text[2 * k] as u8 && utf8[2 * k + 1] == text[2 * k + 1] as u8);
            lemma_digit_value(utf8[2 * k], bytes[k] as int / 16);
            lemma_digit_value(utf8[2 * k + 1], bytes[k] as int % 16);
        }
        assert(hex_pairs(utf8) =~= bytes);
    }
    if hex_decoding(utf8) == Ok::<Seq<u8>, HexError>(bytes) {
        assert forall|i: int| 0 <= i < utf8.len() implies #[trigger] utf8[i] < 0x80 by {
            lemma_digit_value(utf8[i], 0);
        }
        lemma_ascii_bytes(text);
        is_ascii_chars_encode_utf8(text);
        assert forall|k: int| 0 <= k < bytes.len() implies stands_for(
            text[2 * k] as int,
            #[trigger] bytes[k] as int / 16,
        ) && stands_for(text[2 * k + 1] as int, bytes[k] as int % 16) by {
            let hi = utf8[2 * k];
            let lo = utf8[2 * k + 1];
            assert(hi == text[2 * k] as u8 && lo == text[2 * k + 1] as u8);
            assert(hex_digit_value(hi) is Some && hex_digit_value(lo) is Some);
            lemma_digit_value(hi, hex_digit_value(hi)->0 as int);
            lemma_digit_value(lo, hex_digit_value(lo)->0 as int);
            assert(bytes[k] == 16 * hex_digit_value(hi)->0 + hex_digit_value(lo)->0);
        }
    }
}

/// Whether a byte is one of `0` to `9`, `A` to `F` and `a` to `f`.
pub open spec fn is_digit_byte(b: u8) -> bool {
    0x30 <= b <= 0x39 || 0x41 <= b <= 0x46 || 0x61 <= b <= 0x66
}

/// Text that is not hexadecimal is refused for what is wrong with it: for its length where that
/// is odd, and otherwise for its first byte that is no digit, which is shown with its place.
pub proof fn what_is_wrong_with_a_text_is_told(text: Seq<u8>)
    requires
        text.len() <= usize::MAX,
    ensures
        hex_decoding(text) == Err::<Seq<u8>, HexError>(HexError::OddLength) <==> text.len() % 2
            == 1,
        hex_decoding(text) matches Err(HexError::InvalidCharacter { c, index }) ==> {
            &&& index < text.len()
            &&& c as int == text[index as int] as int
            &&& !is_digit_byte(text[index as int])
            &&& forall|i: int| 0 <= i < index ==> is_digit_byte(#[trigger] text[i])
        },
        text.len() % 2 == 0 ==> (hex_decoding(text) is Ok <==> forall|i: int|
            0 <= i < text.len() ==> is_digit_byte(#[trigger] text[i])),
        !(hex_decoding(text) matches Err(HexError::InvalidStringLength)),
{
    lemma_leading_hex(text);
    assert forall|i: int| 0 <= i < text.len() implies (hex_digit_value(#[trigger] text[i]) is Some
        <==> is_digit_byte(text[i])) by {}
}

/// An error is told in words that name the bad character and, in decimal, its place.
pub proof fn hex_errors_are_told_in_words(c: char, index: usize)
    ensures
        ' ' <= c <= '~' && c != '\'' && c != '\\' ==> hex_error_display(
            HexError::InvalidCharacter { c, index },
        ) == "Invalid character "@ + seq!['\'', c, '\''] + " at position "@ + decimal(index as nat),
        hex_error_display(HexError::OddLength) == "Odd number of digits"@,
        hex_error_display(HexError::InvalidStringLength) == "Invalid string length"@,
{
}

} // verus!
