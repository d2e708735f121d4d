//! The functions of other crates and of std that the library calls, each with
//! the contract that the proofs rest on.

use crate::text::decimal;
use vstd::prelude::*;
use vstd::utf8::{encode_utf8, valid_utf8};

verus! {

/// What `str::to_lowercase` makes of a text: its Unicode lower-case form.
pub uninterp spec fn lowercase(text: Seq<char>) -> Seq<char>;

/// `str::to_lowercase` of std. The claim is that the result depends on the
/// characters of the text alone; the Unicode case tables are not stated.
pub assume_specification[ str::to_lowercase ](text: &str) -> (lower: String)
    ensures
        lower@ == lowercase(text@),
;

/// What `Url::parse` makes of a text: the serialization of the absolute URL
/// that it denotes, or the description of the reason why it denotes none.
pub uninterp spec fn parsed_url(text: Seq<char>) -> Result<Seq<char>, Seq<char>>;

/// `reqwest::Url::parse`, which reads an absolute URL. The URL comes back in its
/// serialized form and the error as the text that it displays. The claim is that
/// both depend on the characters of the text alone.
#[verifier::external_body]
pub(crate) fn parse_url(text: &str) -> (parsed: Result<String, String>)
    ensures
        match parsed {
            Ok(url) => parsed_url(text@) == Ok::<Seq<char>, Seq<char>>(url@),
            Err(reason) => parsed_url(text@) == Err::<Seq<char>, Seq<char>>(reason@),
        },
{
    match reqwest::Url::parse(text) {
        Ok(url) => Ok(String::from(url)),
        Err(reason) => Err(reason.to_string()),
    }
}

/// The file-name extensions that `mime_guess` lists for a content type.
pub uninterp spec fn mime_extensions(content_type: Seq<char>) -> Option<Seq<Seq<char>>>;

/// `mime_guess::get_mime_extensions_str`, which looks a content type up in a
/// table that is part of that crate. The claim is that the list depends on the
/// characters of the content type alone; the table is not stated. Its documentation
/// speaks of a panic on malformed content types, but for one without a slash it
/// returns nothing, and it asks for no more.
pub assume_specification[ mime_guess::get_mime_extensions_str ](mime_str: &str) -> (extensions:
    Option<&'static [&'static str]>)
    ensures
        extensions.deep_view() == mime_extensions(mime_str@),
;

/// Whether `bytes` are visible ASCII characters, spaces and tabs.
pub open spec fn visible_ascii(bytes: Seq<u8>) -> bool {
    forall|i: int| 0 <= i < bytes.len() ==> 32 <= #[trigger] bytes[i] < 127 || bytes[i] == 9
}

/// `HeaderValue::from_bytes` of `reqwest::header`, and `to_str` on what it returns.
/// The claim is that a header is read as text exactly where it is visible ASCII,
/// and then byte by byte. What the first function refuses, control characters, the
/// second one would refuse as well.
#[verifier::external_body]
pub(crate) fn header_text(bytes: &[u8]) -> (text: Option<String>)
    ensures
        match text {
            Some(text) => visible_ascii(bytes@) && text@ == bytes@.map_values(|b: u8| b as char),
            None => !visible_ascii(bytes@),
        },
{
    let value = reqwest::header::HeaderValue::from_bytes(bytes).ok()?;
    value.to_str().ok().map(String::from)
}

/// The value of an ASCII hexadecimal digit.
pub open spec fn hex_value(byte: u8) -> Option<int> {
    if 0x30 <= byte <= 0x39 {
        Some(byte - 0x30)
    } else if 0x41 <= byte <= 0x46 {
        Some(byte - 0x41 + 10)
    } else if 0x61 <= byte <= 0x66 {
        Some(byte - 0x61 + 10)
    } else {
        None
    }
}

/// `bytes` with every percent sign that two hexadecimal digits follow replaced,
/// together with the digits, by the byte that they denote.
pub open spec fn percent_decoded(bytes: Seq<u8>) -> Seq<u8>
    decreases bytes.len(),
{
    if bytes.len() == 0 {
        bytes
    } else if bytes.len() >= 3 && bytes[0] == 0x25 && hex_value(bytes[1]) is Some && hex_value(
        bytes[2],
    ) is Some {
        seq![(16 * hex_value(bytes[1])->0 + hex_value(bytes[2])->0) as u8] + percent_decoded(
            bytes.skip(3),
        )
    } else {
        seq![bytes[0]] + percent_decoded(bytes.skip(1))
    }
}

/// `percent_encoding::percent_decode_str` and `decode_utf8` on what it returns.
/// The claim is that the result is the text whose UTF-8 form is the
/// percent-decoded UTF-8 form of `text`, and that there is none exactly where the
/// decoded bytes are not valid UTF-8.
#[verifier::external_body]
pub(crate) fn decode_percent(text: &str) -> (decoded: Option<String>)
    ensures
        match decoded {
            Some(out) => encode_utf8(out@) == percent_decoded(encode_utf8(text@)),
            None => !valid_utf8(percent_decoded(encode_utf8(text@))),
        },
{
    match percent_encoding::percent_decode_str(text).decode_utf8() {
        Ok(out) => Some(out.into_owned()),
        Err(_) => None,
    }
}

/// The number of bytes in the unit number `exp`: 1024 to the power `exp`.
pub open spec fn unit_bytes(exp: nat) -> nat
    decreases exp,
{
    if exp == 0 {
        1
    } else {
        1024 * unit_bytes((exp - 1) as nat)
    }
}

/// The name of the unit number `exp`, for `exp` from one to six.
pub open spec fn unit_name(exp: nat) -> Seq<char> {
    if exp == 1 {
        "kiB"@
    } else if exp == 2 {
        "MiB"@
    } else if exp == 3 {
        "GiB"@
    } else if exp == 4 {
        "TiB"@
    } else if exp == 5 {
        "PiB"@
    } else {
        "EiB"@
    }
}

/// Whether a size of `bytes` is written with the unit number `exp` and as
/// `tenths` tenths of that unit. Up to a million million bytes the unit is
/// settled: the next one is taken above each power of a thousand. Up to 2^53
/// bytes, where the size is exact as a floating-point number and so is its quotient
/// by a power of 1024, the tenths are the nearest ones.
pub open spec fn written_as(bytes: u64, exp: nat, tenths: nat) -> bool {
    &&& 1 <= exp <= 6
    &&& bytes <= 1_000_000_000_000 ==> exp == (if bytes <= 1_000_000 {
        1nat
    } else if bytes <= 1_000_000_000 {
        2nat
    } else {
        3nat
    })
    &&& bytes <= 0x20_0000_0000_0000 ==> {
        &&& 2 * (10 * bytes - tenths * unit_bytes(exp)) <= unit_bytes(exp)
        &&& 2 * (tenths * unit_bytes(exp) - 10 * bytes) <= unit_bytes(exp)
    }
}

/// The text that stands for `tenths` tenths of the unit number `exp`.
pub open spec fn unit_text(exp: nat, tenths: nat) -> Seq<char> {
    decimal(tenths / 10) + "."@ + decimal(tenths % 10) + " "@ + unit_name(exp)
}

/// Whether `text` is a rendering of a size of `bytes` in binary units.
pub open spec fn is_binary_size(bytes: u64, text: Seq<char>) -> bool {
    if bytes < 1024 {
        text == decimal(bytes as nat) + " B"@
    } else {
        exists|exp: nat, tenths: nat|
            #[trigger] written_as(bytes, exp, tenths) && text == unit_text(exp, tenths)
    }
}

/// `bytesize::to_string`. The claim is on its binary form, with `si_prefix` set:
/// below 1024 the bytes are counted, and above that the size has one decimal and
/// a unit. The number of the unit is the logarithm of the size divided by
/// 6.907755279, in floating point and cut to an integer. That divisor is a little
/// more than the logarithm of a thousand, so that powers of a thousand fall short
/// of the next unit, and the integers behind them do not, by far more than the last
/// digits of a logarithm, which no platform promises. Not stated are the unit of
/// sizes above a million million, the tenths of sizes above 2^53, which way a tie
/// between two tenths goes, and the form with `si_prefix` unset.
pub assume_specification[ bytesize::to_string ](bytes: u64, si_prefix: bool) -> (text: String)
    ensures
        si_prefix ==> is_binary_size(bytes, text@),
;

}
