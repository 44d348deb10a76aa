//! The adapter from one line of the address table onto an address record.
//!
//! A record line carries exactly twelve comma-delimited, optionally quoted
//! fields: prefecture code, prefecture name, prefecture kana, prefecture
//! romanization, municipality code, municipality name, municipality kana,
//! municipality romanization, town code, town name, latitude and longitude.
//! Only the three names and the two coordinates are retained.

use vstd::prelude::*;
use crate::csv::CsvFieldParser;
use crate::csv::FieldStep;
use crate::csv::field_step;
use crate::csv::lemma_field_step_bounds;
use crate::csv::line_tokens;
use crate::geocoder::Address;
use crate::geocoder::Location;

verus! {

/// Why a record line was rejected.
#[derive(Debug, Clone, PartialEq, Eq)]
pub enum ParseAddressError {
    /// Fewer than twelve fields.
    LackingField,
    /// More than twelve fields.
    TooManyField,
    /// A field failed to decode.
    InvaleFieldFormat,
    /// A latitude or longitude field is not a decimal number.
    InvalidFloat,
}

/// The retained fields of one record line whose first twelve fields decoded:
/// the three display names, the two coordinate fields still as text, and
/// whether anything followed the twelfth field.
#[derive(Debug, PartialEq)]
pub struct GeoloniaRecord {
    /// Prefecture name.
    pub prefecture: String,
    /// Municipality name.
    pub municipality: String,
    /// Town or block name.
    pub town: String,
    /// Latitude in decimal degrees, as text.
    pub latitude: String,
    /// Longitude in decimal degrees, as text.
    pub longitude: String,
    /// Whether the line carries anything beyond the twelfth field: a further
    /// field, or a decoding failure after the twelfth.  Reported as the
    /// extra-field error by [`record_to_address`], after the coordinate
    /// fields' own numeric check.
    pub extra: bool,
}

/// Drains the tokenizer into `out`, field by field, until the terminal field
/// or the first decoding failure; returns whether a failure ended the stream.
fn collect_fields(parser: &mut CsvFieldParser, out: &mut Vec<String>) -> (failed: bool)
    requires
        old(parser).wf(),
        old(parser).more_fields(),
        !old(parser).failed(),
    ensures
        final(out).deep_view() == old(out).deep_view() + line_tokens(
            old(parser).remaining(),
        ).fields,
        failed == line_tokens(old(parser).remaining()).failed,
    decreases parser.text().len() - parser.cursor(),
{
    let ghost rem = parser.remaining();
    let r = parser.next();
    proof {
        lemma_field_step_bounds(rem);
    }
    match r {
        None => {
            proof {
                assert(field_step(rem) is Value || field_step(rem) is Fail);
                assert(false);
            }
            false
        },
        Some(Err(_)) => {
            proof {
                assert(out.deep_view() =~= old(out).deep_view() + line_tokens(rem).fields);
            }
            true
        },
        Some(Ok(f)) => {
            let ghost prefix = out.deep_view();
            out.push(f);
            proof {
                assert(out.deep_view() =~= prefix.push(f@));
            }
            if parser.has_more() {
                proof {
                    if let FieldStep::Value { text, used, more } = field_step(rem) {
                        assert(parser.remaining() =~= rem.skip(used));
                    }
                }
                let failed = collect_fields(parser, out);
                proof {
                    if let FieldStep::Value { text, used, more } = field_step(rem) {
                        assert(out.deep_view() =~= old(out).deep_view() + line_tokens(
                            rem,
                        ).fields);
                    }
                }
                failed
            } else {
                proof {
                    assert(out.deep_view() =~= old(out).deep_view() + line_tokens(rem).fields);
                }
                false
            }
        },
    }
}

/// Splits one line of the address table into its twelve fields and retains
/// the five that matter.  The two coordinate fields stay as text: turning
/// them into numbers is the caller's step, checked by [`record_to_address`].
/// Errors follow the fields' own order: a decoding failure among the first
/// twelve fields rejects the line as malformed, a stream that ends before
/// twelve fields is lacking a field.  Anything beyond the twelfth field is
/// only noted in the record, since the extra-field error comes after the
/// coordinate fields' numeric check, which is the caller's.
pub fn parse_geolonia(s: &str) -> (r: Result<GeoloniaRecord, ParseAddressError>)
    ensures
        ({
            let toks = line_tokens(s@);
            match r {
                Ok(rec) => {
                    &&& toks.fields.len() >= 12
                    &&& rec.prefecture@ == toks.fields[1]
                    &&& rec.municipality@ == toks.fields[5]
                    &&& rec.town@ == toks.fields[9]
                    &&& rec.latitude@ == toks.fields[10]
                    &&& rec.longitude@ == toks.fields[11]
                    &&& rec.extra == (toks.fields.len() > 12 || toks.failed)
                },
                Err(e) => match e {
                    ParseAddressError::LackingField => !toks.failed && toks.fields.len() < 12,
                    ParseAddressError::InvaleFieldFormat => toks.failed && toks.fields.len() < 12,
                    ParseAddressError::TooManyField => false,
                    ParseAddressError::InvalidFloat => false,
                },
            }
        }),
{
    let mut parser = CsvFieldParser::new(s);
    let mut fields: Vec<String> = Vec::new();
    proof {
        assert(parser.remaining() =~= s@);
    }
    let ghost pre = fields.deep_view();
    let failed = collect_fields(&mut parser, &mut fields);
    proof {
        assert(pre =~= Seq::<Seq<char>>::empty());
        assert(fields.deep_view() =~= line_tokens(s@).fields);
    }
    if fields.len() < 12 {
        if failed {
            Err(ParseAddressError::InvaleFieldFormat)
        } else {
            Err(ParseAddressError::LackingField)
        }
    } else {
        Ok(
            GeoloniaRecord {
                prefecture: fields[1].clone(),
                municipality: fields[5].clone(),
                town: fields[9].clone(),
                latitude: fields[10].clone(),
                longitude: fields[11].clone(),
                extra: fields.len() > 12 || failed,
            },
        )
    }
}

/// Builds the address once the caller has turned the two coordinate fields
/// into numbers: `latitude` and `longitude` carry the bit patterns of the
/// parsed single-precision values, or `None` where the text did not parse as
/// a number, which rejects the record.  A coordinate that is not a number is
/// the coordinate field's own failure and comes first; only when both
/// coordinates are good does anything beyond the twelfth field reject the
/// record as carrying too many fields.
pub fn record_to_address(record: GeoloniaRecord, latitude: Option<u32>, longitude: Option<u32>) -> (r:
    Result<Address, ParseAddressError>)
    ensures
        match (latitude, longitude) {
            (Some(la), Some(lo)) => {
                if record.extra {
                    r matches Err(e) && e == ParseAddressError::TooManyField
                } else {
                    &&& r matches Ok(a)
                    &&& a.location.latitude == la
                    &&& a.location.longitude == lo
                    &&& a.prefecture == record.prefecture
                    &&& a.municipality == record.municipality
                    &&& a.town == record.town
                }
            },
            _ => r matches Err(e) && e == ParseAddressError::InvalidFloat,
        },
{
    match (latitude, longitude) {
        (Some(la), Some(lo)) => {
            if record.extra {
                Err(ParseAddressError::TooManyField)
            } else {
                Ok(
                    Address {
                        location: Location { latitude: la, longitude: lo },
                        prefecture: record.prefecture,
                        municipality: record.municipality,
                        town: record.town,
                    },
                )
            }
        },
        _ => Err(ParseAddressError::InvalidFloat),
    }
}

} // verus!
