//! The wire parser: one comma-separated feed line in, one typed report
//! out — or "no message" for lines the tracker ignores, or a parse error.

use vstd::prelude::*;

use crate::fields::COMMA;
use crate::fields::split_commas;
use crate::fields::split_fields;
use crate::messages::LatLon;
use crate::messages::Sbs1Message;
use crate::messages::Sbs1MessageV;
use crate::numbers::spec_parse_i32;
use crate::numbers::spec_parse_micro;
use crate::numbers::spec_parse_u32;
use crate::numbers::parse_i32_field;
use crate::numbers::parse_micro_field;
use crate::numbers::parse_u32_field;
use crate::transponder::code_str_value;
use crate::transponder::is_valid_code_str;
use crate::transponder::ModeSTransponderCode;
use crate::transponder::TransponderCodeError;

verus! {

/// ASCII `M`.
pub const UPPER_M: u8 = 77;

/// ASCII `S`.
pub const UPPER_S: u8 = 83;

/// ASCII `G`.
pub const UPPER_G: u8 = 71;

/// Why a feed line could not be parsed.
#[derive(Clone, Copy, Debug, PartialEq, Eq, Structural)]
pub enum ParseError {
    /// Fewer than 5 comma-separated fields.
    TooFewFields,
    /// Field 2 is not a decimal integer.
    InvalidMessageType,
    /// Field 5, the transponder code, is empty.
    EmptyTransponderField,
    /// Field 5 is not a 6-digit uppercase hexadecimal code.
    InvalidTransponderCode(TransponderCodeError),
    /// An identification message with fewer than 11 fields.
    TooFewIdentificationFields,
    /// An identification message with an empty callsign field.
    EmptyCallsign,
    /// An airborne position message where exactly one of latitude and
    /// longitude parses: a single coordinate without its pair is
    /// meaningless.
    UnpairedCoordinates,
    /// An airborne velocity message without a readable ground speed.
    InvalidGroundSpeed,
    /// An airborne velocity message without a readable track.
    InvalidTrack,
    /// A surveillance altitude message without a readable altitude.
    InvalidAltitude,
}

/// The literal first field of every tracking message.
pub open spec fn msg_token() -> Seq<u8> {
    seq![UPPER_M, UPPER_S, UPPER_G]
}

/// What an identification message (type 1) means, given the common fields.
pub open spec fn spec_parse_identification(fields: Seq<Seq<u8>>, id: u32) -> Result<
    Option<Sbs1MessageV>,
    ParseError,
> {
    if fields.len() < 11 {
        Err(ParseError::TooFewIdentificationFields)
    } else if fields[10].len() == 0 {
        Err(ParseError::EmptyCallsign)
    } else {
        Ok(
            Some(
                Sbs1MessageV::EsIdentificationAndCategory { id, callsign: fields[10] },
            ),
        )
    }
}

/// What an airborne position message (type 3) means: altitude optional,
/// latitude and longitude either both present or both absent.
pub open spec fn spec_parse_airborne_position(fields: Seq<Seq<u8>>, id: u32) -> Result<
    Option<Sbs1MessageV>,
    ParseError,
> {
    let altitude = if fields.len() > 11 {
        spec_parse_u32(fields[11])
    } else {
        None
    };
    let lat = if fields.len() > 14 {
        spec_parse_micro(fields[14])
    } else {
        None
    };
    let lon = if fields.len() > 15 {
        spec_parse_micro(fields[15])
    } else {
        None
    };
    match (lat, lon) {
        (Some(la), Some(lo)) => Ok(
            Some(
                Sbs1MessageV::EsAirbornePosition {
                    id,
                    altitude,
                    lat_lon: Some(LatLon { lat: la, lon: lo }),
                },
            ),
        ),
        (None, None) => Ok(
            Some(Sbs1MessageV::EsAirbornePosition { id, altitude, lat_lon: None }),
        ),
        _ => Err(ParseError::UnpairedCoordinates),
    }
}

/// What an airborne velocity message (type 4) means: ground speed and
/// track are both required.
pub open spec fn spec_parse_airborne_velocity(fields: Seq<Seq<u8>>, id: u32) -> Result<
    Option<Sbs1MessageV>,
    ParseError,
> {
    let gs = if fields.len() > 12 {
        spec_parse_micro(fields[12])
    } else {
        None
    };
    let track = if fields.len() > 13 {
        spec_parse_micro(fields[13])
    } else {
        None
    };
    match gs {
        None => Err(ParseError::InvalidGroundSpeed),
        Some(g) => match track {
            None => Err(ParseError::InvalidTrack),
            Some(t) => Ok(
                Some(Sbs1MessageV::EsAirborneVelocity { id, ground_speed: g, track: t }),
            ),
        },
    }
}

/// What a surveillance altitude message (type 5) means: the altitude is
/// required.
pub open spec fn spec_parse_surveillance_altitude(fields: Seq<Seq<u8>>, id: u32) -> Result<
    Option<Sbs1MessageV>,
    ParseError,
> {
    let altitude = if fields.len() > 11 {
        spec_parse_u32(fields[11])
    } else {
        None
    };
    match altitude {
        None => Err(ParseError::InvalidAltitude),
        Some(a) => Ok(Some(Sbs1MessageV::SurveillanceAltitude { id, altitude: a })),
    }
}

/// What one feed line means. A line whose first field is not `MSG` is no
/// tracking message and yields `Ok(None)`, as does a tracking message of a
/// kind the tracker does not interpret.
pub open spec fn spec_parse_line(line: Seq<u8>) -> Result<Option<Sbs1MessageV>, ParseError> {
    let fields = split_fields(line, COMMA);
    if fields[0] != msg_token() {
        Ok(None)
    } else if fields.len() < 5 {
        Err(ParseError::TooFewFields)
    } else {
        match spec_parse_i32(fields[1]) {
            None => Err(ParseError::InvalidMessageType),
            Some(mt) => {
                if fields[4].len() == 0 {
                    Err(ParseError::EmptyTransponderField)
                } else if fields[4].len() != 6 {
                    Err(
                        ParseError::InvalidTransponderCode(TransponderCodeError::InvalidLength),
                    )
                } else if !is_valid_code_str(fields[4]) {
                    Err(
                        ParseError::InvalidTransponderCode(TransponderCodeError::InvalidCharacter),
                    )
                } else {
                    let id = code_str_value(fields[4]);
                    if mt == 1 {
                        spec_parse_identification(fields, id)
                    } else if mt == 3 {
                        spec_parse_airborne_position(fields, id)
                    } else if mt == 4 {
                        spec_parse_airborne_velocity(fields, id)
                    } else if mt == 5 {
                        spec_parse_surveillance_altitude(fields, id)
                    } else {
                        Ok(None)
                    }
                }
            },
        }
    }
}

/// The view of a parse result, for stating what the parser returned.
pub open spec fn parse_result_view(r: Result<Option<Sbs1Message>, ParseError>) -> Result<
    Option<Sbs1MessageV>,
    ParseError,
> {
    match r {
        Ok(Some(m)) => Ok(Some(m@)),
        Ok(None) => Ok(None),
        Err(e) => Err(e),
    }
}

/// Parses one feed line, exactly as [`spec_parse_line`] reads it.
pub fn parse_sbs_message(line: &[u8]) -> (r: Result<Option<Sbs1Message>, ParseError>)
    ensures
        parse_result_view(r) == spec_parse_line(line@),
{
    let ghost sfields = split_fields(line@, COMMA);
    let fields = split_commas(line);
    proof {
        assert(forall|i: int|
            0 <= i < fields@.len() ==> #[trigger] fields@[i]@ == fields@.map_values(
                |f: Vec<u8>| f@,
            )[i]);
    }

    let f0 = &fields[0];
    if !(f0.len() == 3 && f0[0] == UPPER_M && f0[1] == UPPER_S && f0[2] == UPPER_G) {
        proof {
            assert(fields@[0]@ != msg_token());
        }
        return Ok(None);
    }
    proof {
        assert(fields@[0]@ =~= msg_token());
    }

    if fields.len() < 5 {
        return Err(ParseError::TooFewFields);
    }

    let mt = match parse_i32_field(fields[1].as_slice()) {
        Some(mt) => mt,
        None => {
            return Err(ParseError::InvalidMessageType);
        },
    };

    if fields[4].len() == 0 {
        return Err(ParseError::EmptyTransponderField);
    }
    let id = match ModeSTransponderCode::from_hex(fields[4].as_slice()) {
        Ok(id) => id,
        Err(e) => {
            return Err(ParseError::InvalidTransponderCode(e));
        },
    };

    if mt == 1 {
        if fields.len() < 11 {
            return Err(ParseError::TooFewIdentificationFields);
        }
        if fields[10].len() == 0 {
            return Err(ParseError::EmptyCallsign);
        }
        let callsign = fields[10].clone();
        Ok(Some(Sbs1Message::EsIdentificationAndCategory { id, callsign }))
    } else if mt == 3 {
        let altitude = if fields.len() > 11 {
            parse_u32_field(fields[11].as_slice())
        } else {
            None
        };
        let lat = if fields.len() > 14 {
            parse_micro_field(fields[14].as_slice())
        } else {
            None
        };
        let lon = if fields.len() > 15 {
            parse_micro_field(fields[15].as_slice())
        } else {
            None
        };
        match (lat, lon) {
            (Some(la), Some(lo)) => Ok(
                Some(
                    Sbs1Message::EsAirbornePosition {
                        id,
                        altitude,
                        lat_lon: Some(LatLon { lat: la, lon: lo }),
                    },
                ),
            ),
            (None, None) => Ok(
                Some(Sbs1Message::EsAirbornePosition { id, altitude, lat_lon: None }),
            ),
            _ => Err(ParseError::UnpairedCoordinates),
        }
    } else if mt == 4 {
        let gs = if fields.len() > 12 {
            parse_micro_field(fields[12].as_slice())
        } else {
            None
        };
        let track = if fields.len() > 13 {
            parse_micro_field(fields[13].as_slice())
        } else {
            None
        };
        match gs {
            None => Err(ParseError::InvalidGroundSpeed),
            Some(g) => match track {
                None => Err(ParseError::InvalidTrack),
                Some(t) => Ok(
                    Some(Sbs1Message::EsAirborneVelocity { id, ground_speed: g, track: t }),
                ),
            },
        }
    } else if mt == 5 {
        let altitude = if fields.len() > 11 {
            parse_u32_field(fields[11].as_slice())
        } else {
            None
        };
        match altitude {
            None => Err(ParseError::InvalidAltitude),
            Some(a) => Ok(Some(Sbs1Message::SurveillanceAltitude { id, altitude: a })),
        }
    } else {
        Ok(None)
    }
}

} // verus!
