//! What a GRIB file declares about itself: its edition, and the packed date and time integers its
//! messages carry.

use crate::text::{push_signed_zero_padded, signed_zero_padded, text_of};
use vstd::prelude::*;

verus! {

/// The GRIB edition a file is encoded in.
#[derive(Debug, Clone, Copy, PartialEq, Eq, Structural)]
pub enum GribEdition {
    V1,
    V2,
}

/// Errors that can occur while parsing GRIB input.
#[derive(Debug)]
pub enum GribIngestError {
    /// The GRIB ingestor was handed an in-memory byte payload; it needs a file, because GRIB is
    /// decoded from a seekable reader.
    RequiresFile,
    /// The file declares a GRIB edition this build does not decode.
    UnsupportedEdition(u8),
    /// The input could not be decoded as GRIB; the decoder's message is kept.
    Parse(String),
}

/// The edition octet 8 of the Indicator Section declares, or its refusal.
pub open spec fn declared_edition(octet: u8) -> Result<GribEdition, u8> {
    if octet == 1 {
        Ok(GribEdition::V1)
    } else if octet == 2 {
        Ok(GribEdition::V2)
    } else {
        Err(octet)
    }
}

/// Reads the GRIB edition from octet 8 of the Indicator Section.
///
/// Both editions place the edition number at the same offset, and the header is the authoritative
/// declaration of the format; any edition but 1 or 2 is refused.
pub fn edition_from_indicator(octet: u8) -> (edition: Result<GribEdition, GribIngestError>)
    ensures
        match declared_edition(octet) {
            Ok(declared) => edition == Ok::<GribEdition, GribIngestError>(declared),
            Err(other) => edition matches Err(GribIngestError::UnsupportedEdition(o)) && o == other,
        },
{
    if octet == 1 {
        Ok(GribEdition::V1)
    } else if octet == 2 {
        Ok(GribEdition::V2)
    } else {
        Err(GribIngestError::UnsupportedEdition(octet))
    }
}

/// Rust's integer division, which truncates toward zero.
pub open spec fn truncated_div(a: int, b: int) -> int {
    if a >= 0 {
        a / b
    } else {
        -((-a) / b)
    }
}

/// Rust's integer remainder, which takes the sign of the dividend.
pub open spec fn truncated_rem(a: int, b: int) -> int {
    a - b * truncated_div(a, b)
}

/// The RFC 3339 UTC timestamp of a packed `yyyymmdd` date and `hhmm` time: each component
/// zero-padded (year to four places, the others to two) with the sign before the zeros.
pub open spec fn timestamp(date: int, time: int) -> Seq<char> {
    signed_zero_padded(truncated_div(date, 10000), 4) + seq!['-'] + signed_zero_padded(
        truncated_rem(truncated_div(date, 100), 100),
        2,
    ) + seq!['-'] + signed_zero_padded(truncated_rem(date, 100), 2) + seq!['T']
        + signed_zero_padded(truncated_div(time, 100), 2) + seq![':'] + signed_zero_padded(
        truncated_rem(time, 100),
        2,
    ) + seq![':', '0', '0', '+', '0', '0', ':', '0', '0']
}

/// A truncated quotient lies between zero and the dividend, and the remainder is smaller in
/// magnitude than the divisor.
proof fn lemma_truncated_bounds(v: int, d: int)
    requires
        d > 0,
    ensures
        v >= 0 ==> 0 <= truncated_div(v, d) <= v,
        v < 0 ==> v <= truncated_div(v, d) <= 0,
        -d < truncated_rem(v, d) < d,
{
    if v >= 0 {
        assert(0 <= v / d <= v) by (nonlinear_arith)
            requires
                v >= 0,
                d > 0,
        ;
        assert(v - d * (v / d) == v % d) by (nonlinear_arith)
            requires
                d > 0,
        ;
        assert(0 <= v % d < d) by (nonlinear_arith)
            requires
                d > 0,
        ;
    } else {
        let w = -v;
        assert(0 <= w / d <= w) by (nonlinear_arith)
            requires
                w >= 0,
                d > 0,
        ;
        assert(w - d * (w / d) == w % d) by (nonlinear_arith)
            requires
                d > 0,
        ;
        assert(0 <= w % d < d) by (nonlinear_arith)
            requires
                d > 0,
        ;
        assert(truncated_rem(v, d) == -(w - d * (w / d))) by (nonlinear_arith)
            requires
                w == -v,
                truncated_div(v, d) == -(w / d),
                truncated_rem(v, d) == v - d * truncated_div(v, d),
        ;
    }
}

/// Integer division and remainder by a positive divisor, truncating toward zero.
fn divide(value: i64, divisor: i64) -> (parts: (i64, i64))
    requires
        divisor > 0,
    ensures
        parts.0 == truncated_div(value as int, divisor as int),
        parts.1 == truncated_rem(value as int, divisor as int),
{
    proof {
        lemma_truncated_bounds(value as int, divisor as int);
    }
    let wide = value as i128;
    let d = divisor as i128;
    let quotient: i128 = if wide >= 0 {
        wide / d
    } else {
        -((-wide) / d)
    };
    assert(quotient == truncated_div(value as int, divisor as int));
    let remainder: i128 = wide - d * quotient;
    assert(remainder == truncated_rem(value as int, divisor as int));
    (quotient as i64, remainder as i64)
}

/// Builds an RFC 3339 UTC timestamp from packed `yyyymmdd` date and `hhmm` time integers.
///
/// GRIB dates and times come as packed integers (date `20260818`, time `730` for 07:30); this
/// reassembles them without a date-time dependency, since the components are already validated
/// calendar fields.
pub fn format_timestamp(date: i64, time: i64) -> (text: String)
    ensures
        text@ == timestamp(date as int, time as int),
{
    let (year, _) = divide(date, 10000);
    let (hundreds, day) = divide(date, 100);
    let (_, month) = divide(hundreds, 100);
    let (hour, minute) = divide(time, 100);
    let mut chars: Vec<char> = Vec::new();
    push_signed_zero_padded(&mut chars, year, 4);
    chars.push('-');
    push_signed_zero_padded(&mut chars, month, 2);
    chars.push('-');
    push_signed_zero_padded(&mut chars, day, 2);
    chars.push('T');
    push_signed_zero_padded(&mut chars, hour, 2);
    chars.push(':');
    push_signed_zero_padded(&mut chars, minute, 2);
    chars.push(':');
    chars.push('0');
    chars.push('0');
    chars.push('+');
    chars.push('0');
    chars.push('0');
    chars.push(':');
    chars.push('0');
    chars.push('0');
    assert(chars@ =~= timestamp(date as int, time as int));
    text_of(&chars)
}

} // verus!
