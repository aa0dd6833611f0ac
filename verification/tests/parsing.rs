use sim7000::commands::{
    decode_cgnsinf, AtExecute, AtRead, Ccid, ConnectionState, Cops, Encoder, Format, GnssFields,
    Iccid, Mode, OperationMode, OperatorInfo, SystemInfo, SystemMode,
};
use sim7000::error::Error;
use sim7000::framed::FramedPort;
use sim7000::mock::MockSerial;
use sim7000::numparse::{parse_i32, parse_u16, parse_u32, parse_u64, parse_u8, push_decimal, push_i32_text};
use sim7000::read::ModemReader;
use sim7000::tcp::ConnectionMessage;
use sim7000::util::{collect_array, Lagged, RingChannel, StateSignal};

fn text(field: &[u8]) -> f64 {
    if field.is_empty() {
        0.0
    } else {
        std::str::from_utf8(field).unwrap().parse().unwrap()
    }
}

#[test]
fn test_fix_gnss_parse() {
    let gnss_str = "1,1,20171103022632.000,31.222067,121.354368,34.700,0.00,0.0,1,,1.1,1.4,0.9,,21,6,,,45,,";
    let gnss = decode_cgnsinf(gnss_str.as_bytes()).unwrap();
    match gnss {
        GnssFields::Fix {
            latitude,
            longitude,
            altitude,
            speed_over_ground,
            course_over_ground,
            hdop,
            pdop,
            vdop,
            sat_gps_view,
            sat_gnss_used,
            sat_glonass_used,
            signal_noise_ratio,
        } => {
            assert_eq!(text(&latitude), 31.222067);
            assert_eq!(text(&longitude), 121.354368);
            assert_eq!(text(&altitude), 34.7);
            assert_eq!(text(&hdop), 1.1);
            assert_eq!(text(&pdop), 1.4);
            assert_eq!(text(&vdop), 0.9);
            assert_eq!(text(&speed_over_ground), 0.0);
            assert_eq!(text(&course_over_ground), 0.0);
            assert_eq!(sat_gps_view, 21);
            assert_eq!(sat_gnss_used, 6);
            assert_eq!(sat_glonass_used, 0);
            assert_eq!(signal_noise_ratio, 45);
        }
        _ => panic!("expected a fix"),
    }
}

#[test]
fn test_missing_dop() {
    let gnss_str = "1,1,20220126140944.000,57.715185,11.973960,44.600,0.00,214.5,1,,1.4,,,,29,5,,,52,,";
    let gnss = decode_cgnsinf(gnss_str.as_bytes()).unwrap();
    match gnss {
        GnssFields::Fix {
            latitude,
            longitude,
            altitude,
            speed_over_ground,
            course_over_ground,
            hdop,
            pdop,
            vdop,
            sat_gps_view,
            sat_gnss_used,
            sat_glonass_used,
            signal_noise_ratio,
        } => {
            assert_eq!(text(&latitude), 57.715185);
            assert_eq!(text(&longitude), 11.973960);
            assert_eq!(text(&altitude), 44.6);
            assert_eq!(text(&hdop), 1.4);
            assert_eq!(text(&pdop), 0.0);
            assert_eq!(text(&vdop), 0.0);
            assert_eq!(text(&speed_over_ground), 0.0);
            assert_eq!(text(&course_over_ground), 214.5);
            assert_eq!(sat_gps_view, 29);
            assert_eq!(sat_gnss_used, 5);
            assert_eq!(sat_glonass_used, 0);
            assert_eq!(signal_noise_ratio, 52);
        }
        _ => panic!("expected a fix"),
    }
}

#[test]
fn gnss_without_fix_or_engine() {
    assert!(matches!(decode_cgnsinf(b"0,,,,,,,,,,,,,,,,,,,,"), Some(GnssFields::NotEnabled)));
    assert!(matches!(
        decode_cgnsinf(b"1,0,,,,,,,,,,,,,12,,,,,,"),
        Some(GnssFields::NoFix { .. })
    ));
    assert!(decode_cgnsinf(b"garbage").is_none());
}

#[test]
fn numbers_parse_like_from_str() {
    assert_eq!(parse_u8(b"255"), Some(255));
    assert_eq!(parse_u8(b"256"), None);
    assert_eq!(parse_u8(b"+7"), Some(7));
    assert_eq!(parse_u8(b""), None);
    assert_eq!(parse_u16(b"65535"), Some(65535));
    assert_eq!(parse_u32(b"4294967296"), None);
    assert_eq!(parse_u64(b"18446744073709551615"), Some(u64::MAX));
    assert_eq!(parse_i32(b"-2147483648"), Some(i32::MIN));
    assert_eq!(parse_i32(b"2147483648"), None);
    assert_eq!(parse_i32(b"-"), None);
    assert_eq!(parse_i32(b"12a"), None);
}

#[test]
fn number_text_round_trips() {
    for v in [0, 7, -7, 123456, i32::MAX, i32::MIN] {
        let mut out = Vec::new();
        push_i32_text(&mut out, v);
        assert_eq!(out, v.to_string().into_bytes());
        assert_eq!(parse_i32(&out), Some(v));
    }
    let mut out = Vec::new();
    push_decimal(&mut out, 9000);
    assert_eq!(out, b"9000");
}

#[test]
fn encoder_writes_in_order() {
    let mut e = Encoder::new();
    e.encode_str("AT+CSTT=");
    e.encode_scalar(-12);
    e.encode_bytes(b",\"x\"");
    assert_eq!(e.as_bytes(), b"AT+CSTT=-12,\"x\"");
}

#[test]
fn iccid_parses() {
    let iccid = Iccid::parse(b"89460850071805040418").unwrap();
    assert_eq!(iccid, Iccid { country: 46, issuer: 8, account: 5007180504041 });
    assert!(Iccid::parse(b"8946085007180504041").is_none());
    assert!(Iccid::parse(b"8946085007180504041G").is_none());
}

#[test]
fn iccid_via_modem() {
    let mut mock = FramedPort::new(MockSerial::build()
        .expect_write(b"AT+CCID\r")
        .expect_read(b"\r\n8946085007180504041F\r\n\r\nOK\r\n")
        .finalize());
    let iccid = Ccid.execute(&mut mock, 1000).unwrap();
    assert_eq!(iccid.country, 46);
}

#[test]
fn operator_info_parses() {
    let info = OperatorInfo::parse(b"0,0,\"Telia\"").unwrap();
    assert_eq!(info.mode, Mode::Automatic);
    assert_eq!(info.format, Format::Long);
    assert_eq!(info.operator_name, b"Telia");
    assert!(OperatorInfo::parse(b"3,0,\"x\"").is_none());
    assert!(OperatorInfo::parse(b"0").is_none());
}

#[test]
fn operator_info_via_modem() {
    let mut mock = FramedPort::new(MockSerial::build()
        .expect_write(b"AT+COPS?\r")
        .expect_read(b"\r\n+COPS: 1,2,\"24001\"\r\n\r\nOK\r\n")
        .finalize());
    let info = Cops.read(&mut mock, 1000).unwrap();
    assert_eq!(info.mode, Mode::Manual);
    assert_eq!(info.format, Format::Numeric);
    assert_eq!(info.operator_name, b"24001");
}

#[test]
fn system_info_parses() {
    assert_eq!(
        SystemInfo::parse(b"LTE NB-IOT,Low Power Mode,240-01"),
        Some(SystemInfo { system_mode: SystemMode::LteNbIot, operation_mode: OperationMode::LowPower })
    );
    assert_eq!(SystemInfo::parse(b"NO SERVICE,Online"), Some(SystemInfo {
        system_mode: SystemMode::NoService,
        operation_mode: OperationMode::Online
    }));
    assert_eq!(SystemInfo::parse(b"GSM"), None);
    assert_eq!(SystemInfo::parse(b"5G,Online"), None);
}

#[test]
fn connection_states() {
    assert_eq!(ConnectionState::try_from(b"IP INITIAL"), Ok(ConnectionState::IpInitial));
    assert_eq!(ConnectionState::try_from(b"CONNECT OK"), Ok(ConnectionState::ConnectOk));
    assert_eq!(ConnectionState::try_from(b"PDP DEACT"), Ok(ConnectionState::PdpDeact));
    assert_eq!(ConnectionState::try_from(b"TCP CLOSED"), Ok(ConnectionState::TcpClosing));
    assert_eq!(ConnectionState::try_from(b"UDP CLOSED"), Ok(ConnectionState::UdpClosed));
    assert_eq!(ConnectionState::try_from(b"nonsense"), Err(()));
}

#[test]
fn reader_frames_lines() {
    let mut reader = ModemReader::new();
    assert_eq!(reader.push_bytes(b"\r\n+CSQ: 20,0\r\n\r\nOK\r"), Ok(()));
    assert_eq!(reader.next_line(), Some(Ok("+CSQ: 20,0".to_string())));
    assert_eq!(reader.next_line(), None);
    assert_eq!(reader.push_bytes(b"\n"), Ok(()));
    assert_eq!(reader.next_line(), Some(Ok("OK".to_string())));
    assert_eq!(reader.next_line(), None);
}

#[test]
fn reader_hands_on_prompt_and_drops_echo() {
    let mut reader = ModemReader::new();
    reader.push_bytes(b"AT+CIPSEND=0,5\r\r\n> ").unwrap();
    assert_eq!(reader.next_line(), Some(Ok("> ".to_string())));
    reader.push_bytes(b"\xff\xfe\n").unwrap();
    assert_eq!(reader.next_line(), Some(Err(Error::InvalidUtf8)));
}

#[test]
fn reader_overflow() {
    let mut reader = ModemReader::new();
    assert_eq!(reader.free_space(), 256);
    reader.push_bytes(&[b'a'; 200]).unwrap();
    assert_eq!(reader.push_bytes(&[b'b'; 100]), Err(Error::BufferOverflow));
    assert_eq!(reader.free_space(), 56);
    assert_eq!(reader.take_buffered(10), vec![b'a'; 10]);
    assert_eq!(reader.free_space(), 66);
}

#[test]
fn ring_channel_keeps_newest() {
    let mut c = RingChannel::new();
    assert_eq!(c.recv(), None);
    c.send(ConnectionMessage::Connected);
    c.send(ConnectionMessage::SendSuccess);
    assert_eq!(c.recv(), Some(Ok(ConnectionMessage::Connected)));
    assert_eq!(c.recv(), Some(Ok(ConnectionMessage::SendSuccess)));
    assert_eq!(c.recv(), None);
    for _ in 0..8 {
        c.send(ConnectionMessage::SendFail);
    }
    c.send(ConnectionMessage::Closed);
    assert_eq!(c.recv(), Some(Err(Lagged)));
    for _ in 0..7 {
        assert_eq!(c.recv(), Some(Ok(ConnectionMessage::SendFail)));
    }
    assert_eq!(c.recv(), Some(Ok(ConnectionMessage::Closed)));
    assert_eq!(c.recv(), None);
    c.send(ConnectionMessage::Closed);
    c.clear();
    assert_eq!(c.recv(), None);
}

#[test]
fn collect_takes_prefix() {
    assert_eq!(collect_array::<u8, 3>(&[1, 2, 3, 4]), Some(vec![1, 2, 3]));
    assert_eq!(collect_array::<u8, 3>(&[1, 2]), None);
}

#[test]
fn state_signal_keeps_last() {
    let mut s = StateSignal::new(1u8);
    assert_eq!(s.current(), 1);
    assert_eq!(s.compare_wait(|v: &u8| *v == 2), None);
    s.signal(2);
    assert_eq!(s.compare_wait(|v: &u8| *v == 2), Some(2));
}

#[test]
fn reader_line_does_not_depend_on_later_bytes() {
    let mut whole = ModemReader::new();
    whole.push_bytes(b"+CSQ: 20,0\r\nOK\r\n").unwrap();
    let mut pieces = ModemReader::new();
    pieces.push_bytes(b"+CSQ: 20,0\r\n").unwrap();
    assert_eq!(pieces.next_line(), Some(Ok("+CSQ: 20,0".to_string())));
    pieces.push_bytes(b"OK\r\n").unwrap();
    assert_eq!(whole.next_line(), Some(Ok("+CSQ: 20,0".to_string())));
    assert_eq!(whole.next_line(), pieces.next_line());
}

#[test]
fn reader_refuses_invalid_line_and_goes_on() {
    let mut reader = ModemReader::new();
    reader.push_bytes(b"\xff\nOK\r\n").unwrap();
    assert_eq!(reader.next_line(), Some(Err(Error::InvalidUtf8)));
    assert_eq!(reader.next_line(), Some(Ok("OK".to_string())));
    assert_eq!(reader.next_line(), None);
}

#[test]
fn reader_passes_over_blank_and_echo_lines() {
    let mut reader = ModemReader::new();
    reader.push_bytes(b"\r\n  \r\nAT+CSQ\r\r\n+CSQ: 9,0\r\nrest").unwrap();
    assert_eq!(reader.next_line(), Some(Ok("+CSQ: 9,0".to_string())));
    assert_eq!(reader.take_buffered(10), b"rest".to_vec());
}
