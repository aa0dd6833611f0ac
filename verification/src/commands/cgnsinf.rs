//! `AT+CGNSINF`: the GNSS navigation information.
//!
//! The answer carries decimal fractions (coordinates, speed, dilutions of
//! precision); this module reads the structure of the answer and its integer
//! fields, and hands the fractional fields on as their text.

use vstd::prelude::*;
use crate::error::Error;
use crate::numparse::{decimal, is_digit, lemma_decimal_digits, parse_u32, spec_parse_unsigned, unsigned_body};
use crate::serial::SerialReadTimeout;
use crate::text::{has_prefix, join_commas, lemma_split_join, no_comma, split_commas, split_fields, views};
use super::{expect_text, lemma_same_line, lemma_seen_concat, next_text, read_error, AtCommand, AtDecode, AtExecute, Decoder};
use super::literals::{cgnsinf_header, lemma_cgnsinf_header, lemma_ok, ok};

verus! {

pub struct Cgnsinf;

impl AtCommand for Cgnsinf {
    const COMMAND: &'static str = "AT+CGNSINF";
}

/// The fields of a `+CGNSINF` report.
#[allow(inconsistent_fields)]
#[derive(Debug, Clone, PartialEq)]
pub enum GnssFields {
    /// The GNSS engine is off.
    NotEnabled,
    /// No position yet; the number of satellites in view, where it reads.
    NoFix { sat_gps_view: Option<u32> },
    /// A position. The fractional values are the text of their fields;
    /// `hdop`, `pdop` and `vdop` may be empty or unreadable, and then count
    /// as zero.
    Fix {
        latitude: Vec<u8>,
        longitude: Vec<u8>,
        altitude: Vec<u8>,
        speed_over_ground: Vec<u8>,
        course_over_ground: Vec<u8>,
        hdop: Vec<u8>,
        pdop: Vec<u8>,
        vdop: Vec<u8>,
        sat_gps_view: u32,
        sat_gnss_used: u32,
        sat_glonass_used: u32,
        signal_noise_ratio: u32,
    },
}

/// A field read as a `u32`.
pub open spec fn u32_field(f: Seq<u8>) -> Option<u32> {
    match spec_parse_unsigned(f, u32::MAX as int) {
        Some(v) => Some(v as u32),
        None => None,
    }
}

/// The kind of report that the fields of `params` make:
/// 0 for an unreadable one, 1 for [`GnssFields::NotEnabled`], 2 for
/// [`GnssFields::NoFix`] and 3 for [`GnssFields::Fix`].
///
/// The first field is the run status and the second the fix status, both
/// `1` when set. A fix needs the 19 fields of the report, of which the
/// satellites in view (15th), used (16th) and the signal to noise ratio
/// (19th) must read as numbers; the GLONASS satellites used (17th) count as
/// zero where they do not read.
pub open spec fn gnss_kind(params: Seq<u8>) -> int {
    let f = split_commas(params);
    if u32_field(f[0]) is None {
        0
    } else if u32_field(f[0]) != Some(1u32) {
        1
    } else if f.len() < 2 || u32_field(f[1]) is None {
        0
    } else if u32_field(f[1]) != Some(1u32) {
        2
    } else if f.len() >= 19 && u32_field(f[14]) is Some && u32_field(f[15]) is Some && u32_field(
        f[18],
    ) is Some {
        3
    } else {
        0
    }
}

/// The report that `r` stands for matches the fields of `params`.
pub open spec fn gnss_fields_match(params: Seq<u8>, r: GnssFields) -> bool {
    let f = split_commas(params);
    match r {
        GnssFields::NotEnabled => gnss_kind(params) == 1,
        GnssFields::NoFix { sat_gps_view } => gnss_kind(params) == 2 && sat_gps_view == if f.len()
            > 14 {
            u32_field(f[14])
        } else {
            None
        },
        GnssFields::Fix {
            latitude,
            longitude,
            altitude,
            speed_over_ground,
            course_over_ground,
            hdop,
            pdop,
            vdop,
            sat_gps_view,
            sat_gnss_used,
            sat_glonass_used,
            signal_noise_ratio,
        } => {
            &&& gnss_kind(params) == 3
            &&& latitude@ == f[3]
            &&& longitude@ == f[4]
            &&& altitude@ == f[5]
            &&& speed_over_ground@ == f[6]
            &&& course_over_ground@ == f[7]
            &&& hdop@ == f[10]
            &&& pdop@ == f[11]
            &&& vdop@ == f[12]
            &&& Some(sat_gps_view) == u32_field(f[14])
            &&& Some(sat_gnss_used) == u32_field(f[15])
            &&& sat_glonass_used == match u32_field(f[16]) {
                Some(v) => v,
                None => 0u32,
            }
            &&& Some(signal_noise_ratio) == u32_field(f[18])
        },
    }
}

/// The decimal text of a `u32` reads back as that number.
pub proof fn lemma_u32_field_decimal(n: u32)
    ensures
        u32_field(decimal(n as nat)) == Some(n),
{
    lemma_decimal_digits(n as nat);
    let d = decimal(n as nat);
    assert(is_digit(d[0]));
    assert(unsigned_body(d) == d);
}

/// A report made of the fields `fs`, joined with commas, whose run status
/// (1st field) and fix status (2nd field) are both 1, and whose satellites
/// in view (15th), satellites used (16th), GLONASS satellites used (17th)
/// and signal to noise ratio (19th) are the numbers `view`, `used`,
/// `glonass` and `snr`, is read as a fix with exactly those numbers, with
/// latitude, longitude, altitude, speed, course (4th to 8th fields) and the
/// dilutions of precision (11th to 13th) taken as their text.
pub proof fn lemma_cgnsinf_fix(
    fs: Seq<Seq<u8>>,
    r: GnssFields,
    view: u32,
    used: u32,
    glonass: u32,
    snr: u32,
)
    requires
        fs.len() >= 19,
        forall|i: int| 0 <= i < fs.len() ==> no_comma(#[trigger] fs[i]),
        fs[0] == decimal(1),
        fs[1] == decimal(1),
        fs[14] == decimal(view as nat),
        fs[15] == decimal(used as nat),
        fs[16] == decimal(glonass as nat),
        fs[18] == decimal(snr as nat),
        gnss_fields_match(join_commas(fs), r),
    ensures
        gnss_kind(join_commas(fs)) == 3,
        r matches GnssFields::Fix {
            latitude,
            longitude,
            altitude,
            speed_over_ground,
            course_over_ground,
            hdop,
            pdop,
            vdop,
            sat_gps_view,
            sat_gnss_used,
            sat_glonass_used,
            signal_noise_ratio,
        } && latitude@ == fs[3] && longitude@ == fs[4] && altitude@ == fs[5]
            && speed_over_ground@ == fs[6] && course_over_ground@ == fs[7] && hdop@ == fs[10]
            && pdop@ == fs[11] && vdop@ == fs[12] && sat_gps_view == view && sat_gnss_used == used
            && sat_glonass_used == glonass && signal_noise_ratio == snr,
{
    lemma_split_join(fs);
    lemma_u32_field_decimal(1);
    lemma_u32_field_decimal(view);
    lemma_u32_field_decimal(used);
    lemma_u32_field_decimal(glonass);
    lemma_u32_field_decimal(snr);
}

/// In a fix report whose 17th field (GLONASS satellites used) is empty, the
/// count is zero, whatever the other fields hold.
pub proof fn lemma_cgnsinf_no_glonass(fs: Seq<Seq<u8>>, r: GnssFields)
    requires
        fs.len() >= 19,
        forall|i: int| 0 <= i < fs.len() ==> no_comma(#[trigger] fs[i]),
        fs[16] == Seq::<u8>::empty(),
        r is Fix,
        gnss_fields_match(join_commas(fs), r),
    ensures
        r->sat_glonass_used == 0,
{
    lemma_split_join(fs);
}

/// A report whose run status is 0 is read as "not enabled", and one whose
/// run status is 1 but fix status 0 as "no fix" with the satellites in
/// view of its 15th field, whatever the other fields hold.
pub proof fn lemma_cgnsinf_no_position(fs: Seq<Seq<u8>>, r: GnssFields, view: u32)
    requires
        fs.len() >= 19,
        forall|i: int| 0 <= i < fs.len() ==> no_comma(#[trigger] fs[i]),
        fs[14] == decimal(view as nat),
        gnss_fields_match(join_commas(fs), r),
    ensures
        fs[0] == decimal(0) ==> r == GnssFields::NotEnabled,
        fs[0] == decimal(1) && fs[1] == decimal(0) ==> r == (GnssFields::NoFix {
            sat_gps_view: Some(view),
        }),
{
    lemma_split_join(fs);
    lemma_u32_field_decimal(0);
    lemma_u32_field_decimal(1);
    lemma_u32_field_decimal(view);
}

/// Copies a field.
fn field_copy(f: &Vec<u8>) -> (r: Vec<u8>)
    ensures
        r@ == f@,
{
    crate::text::sub_bytes(f.as_slice(), 0, f.len())
}

/// Reads the fields of a `+CGNSINF` report (the text after `+CGNSINF: `).
pub fn decode_cgnsinf(params: &[u8]) -> (r: Option<GnssFields>)
    ensures
        r is None <==> gnss_kind(params@) == 0,
        r matches Some(v) ==> gnss_fields_match(params@, v),
{
    let f = split_fields(params);
    let ghost fs = split_commas(params@);
    proof {
        crate::text::lemma_split_commas_len(params@);
        assert forall|i: int| 0 <= i < f@.len() implies f@[i]@ == fs[i] by {
            assert(views(f@)[i] == f@[i]@);
        }
    }
    let run = match parse_u32(f[0].as_slice()) {
        Some(v) => v,
        None => return None,
    };
    if run != 1 {
        return Some(GnssFields::NotEnabled);
    }
    if f.len() < 2 {
        return None;
    }
    let fix = match parse_u32(f[1].as_slice()) {
        Some(v) => v,
        None => return None,
    };
    if fix != 1 {
        let sat_gps_view = if f.len() > 14 {
            parse_u32(f[14].as_slice())
        } else {
            None
        };
        return Some(GnssFields::NoFix { sat_gps_view });
    }
    if f.len() < 19 {
        return None;
    }
    let sat_gps_view = match parse_u32(f[14].as_slice()) {
        Some(v) => v,
        None => return None,
    };
    let sat_gnss_used = match parse_u32(f[15].as_slice()) {
        Some(v) => v,
        None => return None,
    };
    let sat_glonass_used = match parse_u32(f[16].as_slice()) {
        Some(v) => v,
        None => 0,
    };
    let signal_noise_ratio = match parse_u32(f[18].as_slice()) {
        Some(v) => v,
        None => return None,
    };
    Some(
        GnssFields::Fix {
            latitude: field_copy(&f[3]),
            longitude: field_copy(&f[4]),
            altitude: field_copy(&f[5]),
            speed_over_ground: field_copy(&f[6]),
            course_over_ground: field_copy(&f[7]),
            hdop: field_copy(&f[10]),
            pdop: field_copy(&f[11]),
            vdop: field_copy(&f[12]),
            sat_gps_view,
            sat_gnss_used,
            sat_glonass_used,
            signal_noise_ratio,
        },
    )
}

impl AtDecode for GnssFields {
    /// A line `+CGNSINF: ` and the fields of a report, then a line starting with `OK`.
    open spec fn outcome(lines: Seq<Seq<u8>>, r: Result<GnssFields, Error>) -> bool {
        let good = has_prefix(lines[0], cgnsinf_header()) && gnss_kind(
            lines[0].skip(cgnsinf_header().len() as int),
        ) != 0;
        ||| lines.len() == 0 && read_error(r)
        ||| lines.len() == 1 && !good && r == Err::<GnssFields, Error>(Error::DecodingFailed)
        ||| lines.len() == 1 && good && read_error(r)
        ||| lines.len() == 2 && good && if has_prefix(lines[1], ok()) {
            r is Ok && gnss_fields_match(lines[0].skip(cgnsinf_header().len() as int), r->Ok_0)
        } else {
            r == Err::<GnssFields, Error>(Error::DecodingFailed)
        }
    }

    fn decode<B: SerialReadTimeout>(decoder: &mut Decoder, serial: &mut B, timeout_ms: u32) -> (r:
        Result<GnssFields, Error>) {
        let ghost d0 = *decoder;
        proof {
            lemma_ok();
            lemma_cgnsinf_header();
        }
        expect_text(decoder, "+CGNSINF: ", serial, timeout_ms)?;
        let ghost d1 = *decoder;
        let text = next_text(decoder, serial, timeout_ms)?;
        proof {
            lemma_same_line(d1, *decoder);
            assert(seq![text@][0] == text@);
            assert(d0.seen_since(*decoder) == d0.seen_since(d1));
        }
        let fields = match decode_cgnsinf(text.as_slice()) {
            Some(v) => v,
            None => return Err(Error::DecodingFailed),
        };
        decoder.end_line();
        let ghost d2 = *decoder;
        let r = expect_text(decoder, "OK", serial, timeout_ms);
        proof {
            lemma_seen_concat(d0, d2, *decoder);
        }
        r?;
        Ok(fields)
    }
}

impl AtExecute for Cgnsinf {
    type Output = GnssFields;
}

} // verus!
