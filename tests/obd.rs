use otgi::obd::{decode, ObdError, ObdMode, ObdQuery, ObdReading, ObdRequest, Scaled, PID};

fn raw(numerator: i64, denominator: u32) -> ObdReading {
    ObdReading::Raw(Scaled { numerator, denominator })
}

#[test]
fn query_frame_for_one_parameter() {
    let q = ObdQuery::new(ObdMode::QueryNow, Some(PID::EngineSpeed));
    assert_eq!(q.frame(), [2, 0x01, 0x0C, 0, 0, 0, 0, 0]);
}

#[test]
fn query_frame_for_trouble_codes() {
    let q = ObdQuery::new(ObdMode::QueryDTC, None);
    assert_eq!(q.frame(), [1, 0x03, 0, 0, 0, 0, 0, 0]);
}

#[test]
fn assemble_drops_parameters_of_trouble_code_query() {
    let pids = [PID::EngineSpeed, PID::VehicleSpeed];
    let mut r = ObdRequest { mode: ObdMode::QueryDTC, data: &pids };
    assert_eq!(r.assemble(), Ok([1, 0x03, 0, 0, 0, 0, 0, 0]));
    assert!(r.data.is_empty());
}

#[test]
fn assemble_largest_and_oversized_requests() {
    let six = [PID::EngineSpeed; 6];
    let mut r = ObdRequest { mode: ObdMode::QueryNow, data: &six };
    assert_eq!(r.assemble(), Ok([7, 0x01, 0x0C, 0x0C, 0x0C, 0x0C, 0x0C, 0x0C]));
    let seven = [PID::Odometer; 7];
    let mut r = ObdRequest { mode: ObdMode::QueryNow, data: &seven };
    assert_eq!(r.assemble(), Err(()));
}

#[test]
fn decode_two_byte_formulas() {
    assert_eq!(decode(ObdMode::QueryNow, Some(PID::MassAirFlow), &[0x01, 0x2C]), Ok(raw(300, 100)));
    assert_eq!(decode(ObdMode::QueryNow, Some(PID::EngineFuelRate), &[0x02, 0x00]), Ok(raw(512, 20)));
    assert_eq!(decode(ObdMode::QueryNow, Some(PID::EngineSpeed), &[0x1A, 0xF8]), Ok(raw(6904, 4)));
    assert_eq!(decode(ObdMode::QueryNow, Some(PID::RunTime), &[0xFF, 0xFF]), Ok(raw(65535, 1)));
    assert_eq!(decode(ObdMode::QueryNow, Some(PID::EngineSpeed), &[0x1A]), Err(()));
}

#[test]
fn decode_one_byte_formulas() {
    assert_eq!(decode(ObdMode::QueryNow, Some(PID::VehicleSpeed), &[60]), Ok(raw(60, 1)));
    assert_eq!(
        decode(ObdMode::QueryNow, Some(PID::ThrottlePosition), &[255]),
        Ok(ObdReading::Percentage(Scaled { numerator: 25500, denominator: 255 }))
    );
    assert_eq!(
        decode(ObdMode::QueryNow, Some(PID::FuelTankLevelInput), &[51]),
        Ok(ObdReading::Percentage(Scaled { numerator: 5100, denominator: 255 }))
    );
    assert_eq!(
        decode(ObdMode::QueryNow, Some(PID::ShortTermFuelTrimBankOne), &[128]),
        Ok(ObdReading::SignedPercentage(Scaled { numerator: 0, denominator: 128 }))
    );
    assert_eq!(
        decode(ObdMode::QueryNow, Some(PID::LongTermFuelTrimBankOne), &[0]),
        Ok(ObdReading::SignedPercentage(Scaled { numerator: -12800, denominator: 128 }))
    );
    assert_eq!(decode(ObdMode::QueryNow, Some(PID::VehicleSpeed), &[]), Err(()));
}

#[test]
fn decode_odometer() {
    assert_eq!(decode(ObdMode::QueryNow, Some(PID::Odometer), &[0, 1, 0, 2]), Ok(raw(65538, 10)));
    assert_eq!(
        decode(ObdMode::QueryNow, Some(PID::Odometer), &[0xFF, 0xFF, 0xFF, 0xFF]),
        Ok(raw(4294967295, 10))
    );
    assert_eq!(decode(ObdMode::QueryNow, Some(PID::Odometer), &[0, 1, 0]), Err(()));
}

#[test]
fn decode_other_modes_and_undecoded_parameters() {
    assert_eq!(decode(ObdMode::QueryDTC, None, &[1, 2, 3]), Ok(ObdReading::DTC(vec![1, 2, 3])));
    assert_eq!(decode(ObdMode::QueryFreezeFrame, Some(PID::EngineSpeed), &[9]), Ok(ObdReading::Unknown(vec![9])));
    assert_eq!(decode(ObdMode::QueryNow, Some(PID::FirstCap), &[0xBE, 0x1F, 0xA8, 0x13]), Err(()));
    assert_eq!(decode(ObdMode::QueryNow, None, &[1]), Err(()));
}

#[test]
fn parse_response_of_engine_speed() {
    let q = ObdQuery::new(ObdMode::QueryNow, Some(PID::EngineSpeed));
    assert_eq!(q.parse_response(&[4, 0x41, 0x0C, 0x1A, 0xF8, 0, 0, 0]), Ok(raw(6904, 4)));
}

#[test]
fn parse_response_of_trouble_codes() {
    let q = ObdQuery::new(ObdMode::QueryDTC, None);
    assert_eq!(q.parse_response(&[3, 0x43, 1, 2, 0, 0, 0, 0]), Ok(ObdReading::DTC(vec![1, 2])));
}

#[test]
fn parse_response_rejects_malformed_frames() {
    let q = ObdQuery::new(ObdMode::QueryNow, Some(PID::EngineSpeed));
    let bad = Err(ObdError::MalformedResponse);
    assert_eq!(q.parse_response(&[4, 0x42, 0x0C, 0x1A, 0xF8]), bad);
    assert_eq!(q.parse_response(&[4, 0x41, 0x0D, 0x1A, 0xF8]), bad);
    assert_eq!(q.parse_response(&[2, 0x41, 0x0C, 0x1A, 0xF8]), bad);
    assert_eq!(q.parse_response(&[6, 0x41, 0x0C, 0x1A, 0xF8]), bad);
    assert_eq!(q.parse_response(&[3, 0x41, 0x0C, 0x1A, 0xF8]), bad);
    assert_eq!(q.parse_response(&[4]), bad);
}

#[test]
fn pid_bytes_round_trip() {
    assert_eq!(u8::from(PID::Odometer), 0xA6);
    assert_eq!(PID::from_repr(0x0C), Some(PID::EngineSpeed));
    assert_eq!(PID::from_repr(0x99), None);
    for b in 0..=255u8 {
        if let Some(p) = PID::from_repr(b) {
            assert_eq!(u8::from(p), b);
        }
    }
    assert_eq!(ObdMode::QueryDTC.code(), 0x03);
}
