use plane_tracker::{parse_sbs_message, LatLon, ParseError, Sbs1Message, TransponderCodeError};

#[test]
fn type3_line_with_altitude_and_coordinates() {
    let line = b"MSG,3,111,11111,ABCDEF,111111,2024/01/02,10:00:00.000,2024/01/02,10:00:00.000,,5000,,,51.5,-0.1,,,,,,0";
    match parse_sbs_message(line) {
        Ok(Some(Sbs1Message::EsAirbornePosition {
            id,
            altitude,
            lat_lon,
        })) => {
            assert_eq!(id.value(), 0xABCDEF);
            assert_eq!(altitude, Some(5000));
            assert_eq!(
                lat_lon,
                Some(LatLon {
                    lat: 51_500_000,
                    lon: -100_000
                })
            );
        }
        other => panic!("unexpected parse result: {:?}", other),
    }
}

#[test]
fn type3_line_with_empty_altitude_still_parses_coordinates() {
    let line = b"MSG,3,111,11111,ABCDEF,111111,2024/01/02,10:00:00.000,2024/01/02,10:00:00.000,,,,,51.5,-0.1,,,,,,0";
    match parse_sbs_message(line) {
        Ok(Some(Sbs1Message::EsAirbornePosition {
            altitude, lat_lon, ..
        })) => {
            assert_eq!(altitude, None);
            assert_eq!(
                lat_lon,
                Some(LatLon {
                    lat: 51_500_000,
                    lon: -100_000
                })
            );
        }
        other => panic!("unexpected parse result: {:?}", other),
    }
}

#[test]
fn type3_line_without_coordinates_is_a_position_without_fix() {
    let line = b"MSG,3,111,11111,ABCDEF,111111,2024/01/02,10:00:00.000,2024/01/02,10:00:00.000,,7000,,,,,,,,,,0";
    match parse_sbs_message(line) {
        Ok(Some(Sbs1Message::EsAirbornePosition {
            altitude, lat_lon, ..
        })) => {
            assert_eq!(altitude, Some(7000));
            assert_eq!(lat_lon, None);
        }
        other => panic!("unexpected parse result: {:?}", other),
    }
}

#[test]
fn type3_line_with_one_coordinate_is_an_error() {
    let line = b"MSG,3,111,11111,ABCDEF,111111,2024/01/02,10:00:00.000,2024/01/02,10:00:00.000,,5000,,,51.5,,,,,,,0";
    assert_eq!(
        parse_sbs_message(line),
        Err(ParseError::UnpairedCoordinates)
    );
}

#[test]
fn non_msg_first_field_yields_no_message_not_an_error() {
    assert_eq!(parse_sbs_message(b"SEL,3,111,11111,ABCDEF,111111"), Ok(None));
    assert_eq!(parse_sbs_message(b"msg,3,111,11111,ABCDEF"), Ok(None));
    assert_eq!(parse_sbs_message(b""), Ok(None));
    assert_eq!(parse_sbs_message(b"STA"), Ok(None));
}

#[test]
fn unknown_message_type_is_silently_skipped() {
    assert_eq!(
        parse_sbs_message(b"MSG,2,111,11111,ABCDEF,111111,,,,,,,,,,,"),
        Ok(None)
    );
    assert_eq!(
        parse_sbs_message(b"MSG,8,111,11111,ABCDEF,111111"),
        Ok(None)
    );
    assert_eq!(
        parse_sbs_message(b"MSG,-3,111,11111,ABCDEF,111111"),
        Ok(None)
    );
}

#[test]
fn too_few_fields_is_an_error() {
    assert_eq!(parse_sbs_message(b"MSG,3,1,2"), Err(ParseError::TooFewFields));
    assert_eq!(parse_sbs_message(b"MSG"), Err(ParseError::TooFewFields));
}

#[test]
fn bad_message_type_is_an_error() {
    assert_eq!(
        parse_sbs_message(b"MSG,x,111,11111,ABCDEF"),
        Err(ParseError::InvalidMessageType)
    );
    assert_eq!(
        parse_sbs_message(b"MSG,,111,11111,ABCDEF"),
        Err(ParseError::InvalidMessageType)
    );
}

#[test]
fn bad_transponder_field_is_an_error() {
    assert_eq!(
        parse_sbs_message(b"MSG,3,111,11111,,111111"),
        Err(ParseError::EmptyTransponderField)
    );
    assert_eq!(
        parse_sbs_message(b"MSG,3,111,11111,ABCD,111111"),
        Err(ParseError::InvalidTransponderCode(
            TransponderCodeError::InvalidLength
        ))
    );
    assert_eq!(
        parse_sbs_message(b"MSG,3,111,11111,abcdef,111111"),
        Err(ParseError::InvalidTransponderCode(
            TransponderCodeError::InvalidCharacter
        ))
    );
}

#[test]
fn identification_line_yields_the_callsign() {
    let line = b"MSG,1,111,11111,ABCDEF,111111,2024/01/02,10:00:00.000,2024/01/02,10:00:00.000,BAW123,,,,,,,,,,,0";
    match parse_sbs_message(line) {
        Ok(Some(Sbs1Message::EsIdentificationAndCategory { id, callsign })) => {
            assert_eq!(id.value(), 0xABCDEF);
            assert_eq!(callsign, b"BAW123".to_vec());
        }
        other => panic!("unexpected parse result: {:?}", other),
    }
}

#[test]
fn short_or_empty_identification_is_an_error() {
    assert_eq!(
        parse_sbs_message(b"MSG,1,111,11111,ABCDEF,111111"),
        Err(ParseError::TooFewIdentificationFields)
    );
    let line = b"MSG,1,111,11111,ABCDEF,111111,2024/01/02,10:00:00.000,2024/01/02,10:00:00.000,,,,,,,,,,,,0";
    assert_eq!(parse_sbs_message(line), Err(ParseError::EmptyCallsign));
}

#[test]
fn velocity_line_yields_speed_and_track_in_micro_units() {
    let line = b"MSG,4,111,11111,ABCDEF,111111,2024/01/02,10:00:00.000,2024/01/02,10:00:00.000,,,450.5,180,,,,,,,,0";
    match parse_sbs_message(line) {
        Ok(Some(Sbs1Message::EsAirborneVelocity {
            ground_speed,
            track,
            ..
        })) => {
            assert_eq!(ground_speed, 450_500_000);
            assert_eq!(track, 180_000_000);
        }
        other => panic!("unexpected parse result: {:?}", other),
    }
}

#[test]
fn velocity_line_requires_both_fields() {
    let missing_speed = b"MSG,4,111,11111,ABCDEF,111111,2024/01/02,10:00:00.000,2024/01/02,10:00:00.000,,,,180,,,,,,,,0";
    assert_eq!(
        parse_sbs_message(missing_speed),
        Err(ParseError::InvalidGroundSpeed)
    );
    let missing_track = b"MSG,4,111,11111,ABCDEF,111111,2024/01/02,10:00:00.000,2024/01/02,10:00:00.000,,,450.5,,,,,,,,,0";
    assert_eq!(
        parse_sbs_message(missing_track),
        Err(ParseError::InvalidTrack)
    );
    assert_eq!(
        parse_sbs_message(b"MSG,4,111,11111,ABCDEF"),
        Err(ParseError::InvalidGroundSpeed)
    );
}

#[test]
fn surveillance_altitude_line_requires_the_altitude() {
    let line = b"MSG,5,111,11111,ABCDEF,111111,2024/01/02,10:00:00.000,2024/01/02,10:00:00.000,,9000,,,,,,,,,,0";
    match parse_sbs_message(line) {
        Ok(Some(Sbs1Message::SurveillanceAltitude { altitude, .. })) => {
            assert_eq!(altitude, 9000);
        }
        other => panic!("unexpected parse result: {:?}", other),
    }
    let missing = b"MSG,5,111,11111,ABCDEF,111111,2024/01/02,10:00:00.000,2024/01/02,10:00:00.000,,,,,,,,,,,,0";
    assert_eq!(parse_sbs_message(missing), Err(ParseError::InvalidAltitude));
    assert_eq!(
        parse_sbs_message(b"MSG,5,111,11111,ABCDEF"),
        Err(ParseError::InvalidAltitude)
    );
}
