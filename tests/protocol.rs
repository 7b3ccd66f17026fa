use picoha_protocols::common;
use picoha_protocols::gpio::{self, GpioDir, GpioValue};
use picoha_protocols::ha::{ArgParser, Code, CodeCategory, ItfType, MsgError, MsgFrame};
use picoha_protocols::i2c;
use picoha_protocols::pwm;
use picoha_protocols::uart::{self, HWFlowControlState};

fn crc_ccitt_false(bytes: &[u8]) -> u16 {
    let mut crc: u16 = 0xFFFF;
    for b in bytes {
        crc ^= (*b as u16) << 8;
        for _ in 0..8 {
            crc = if crc & 0x8000 != 0 { (crc << 1) ^ 0x1021 } else { crc << 1 };
        }
    }
    crc
}

#[test]
fn lib_basic_test() {
    const MSG_DATA: [u8; 6] = [0x01, 0x00, 0x02, 0x02, 0xB4, 0x54];

    let msg = MsgFrame::from_slice(&MSG_DATA).unwrap();
    assert_eq!(msg.code, Code::GpioDirSet);
    assert_eq!(msg.payload_slice(), &[0x02, 0x02]);
    assert_eq!(msg.crc(), 0xB454);

    let req = gpio::Request::consume_frame(msg);
    assert_eq!(req, Ok(gpio::Request::DirSet(2, GpioDir::Output)));

    let resp = gpio::Response::GpioValue(3, GpioValue::Low);
    let msg = resp.to_frame();
    assert_eq!(msg.code, Code::GpioValue);
    assert_eq!(msg.payload_slice(), &[3, 0x00]);

    let resp = gpio::Response::Good;
    let msg = resp.to_frame();
    assert_eq!(msg.code, Code::Good);
    assert!(msg.payload_slice().is_empty());
}

#[test]
fn basic_test() {
    const MSG_DATA: [u8; 6] = [0x10, 0x03, 0x00, 0x00, 0xC6, 0x37];

    let msg = MsgFrame::from_slice(&MSG_DATA).unwrap();
    assert_eq!(msg.code, Code::BaudGet);
    assert_eq!(msg.crc(), 0xC637);

    let req = uart::Request::consume_frame(msg).unwrap();
    assert!(matches!(req, uart::Request::BaudGet));

    let resp = uart::Response::Baud(115200);
    let msg = resp.to_frame();
    assert_eq!(msg.code, Code::Baud);
    assert_eq!(msg.payload_slice(), &115200u32.to_be_bytes());

    let resp = uart::Response::Good;
    let msg = resp.to_frame();
    assert_eq!(msg.code, Code::Good);
    assert!(msg.payload_slice().is_empty());
}

#[test]
fn malformed_three_bytes_is_too_short() {
    assert_eq!(MsgFrame::from_slice(&[0x01, 0x00, 0x02]).unwrap_err(), MsgError::InvalidLength);
    assert_eq!(MsgFrame::from_slice(&[]).unwrap_err(), MsgError::InvalidLength);
}

#[test]
fn checksum_mismatch_reports_both_values() {
    let r = MsgFrame::from_slice(&[0x01, 0x00, 0x02, 0x02, 0xB4, 0x55]);
    assert_eq!(r.unwrap_err(), MsgError::InvalidCRC(0xB454, 0xB455));
}

#[test]
fn unknown_opcode_is_rejected_after_checksum() {
    let mut raw = vec![0x00, 0xFF];
    let crc = crc_ccitt_false(&raw);
    raw.extend_from_slice(&crc.to_be_bytes());
    assert_eq!(MsgFrame::from_slice(&raw).unwrap_err(), MsgError::UnknownCode);
}

#[test]
fn oversized_payload_is_invalid_length() {
    let mut raw = vec![0x00, 0x00];
    raw.extend(std::iter::repeat(7u8).take(65));
    let crc = crc_ccitt_false(&raw);
    raw.extend_from_slice(&crc.to_be_bytes());
    assert_eq!(MsgFrame::from_slice(&raw).unwrap_err(), MsgError::InvalidLength);

    let mut raw = vec![0x00, 0x00];
    raw.extend(std::iter::repeat(7u8).take(64));
    let crc = crc_ccitt_false(&raw);
    raw.extend_from_slice(&crc.to_be_bytes());
    let f = MsgFrame::from_slice(&raw).unwrap();
    assert_eq!(f.payload_slice().len(), 64);
}

#[test]
fn parse_checked_uses_given_checksum() {
    let raw = [0x00, 0x00, 0x12, 0x34];
    assert_eq!(MsgFrame::parse_checked(&raw, 0x1234).unwrap().code, Code::Ping);
    assert_eq!(MsgFrame::parse_checked(&raw, 0x1235).unwrap_err(), MsgError::InvalidCRC(0x1235, 0x1234));
}

#[test]
fn frame_round_trip_all_lengths() {
    for len in 0..=60usize {
        let payload: Vec<u8> = (0..len).map(|i| (i * 37 + 11) as u8).collect();
        let f = MsgFrame::new(Code::DataTX, &payload);
        let bytes = f.to_bytes();
        assert_eq!(bytes.len(), len + 4);
        assert_eq!(&bytes[..2], &[0x10, 0x00]);
        let crc = crc_ccitt_false(&bytes[..bytes.len() - 2]);
        assert_eq!(&bytes[bytes.len() - 2..], &crc.to_be_bytes());
        let g = MsgFrame::from_slice(&bytes).unwrap();
        assert_eq!(g.code, f.code);
        assert_eq!(g.payload_slice(), f.payload_slice());
    }
}

#[test]
fn single_bit_flips_fail_the_checksum() {
    let f = MsgFrame::new(Code::SetFrequency, &[1, 0x44, 0x7A, 0x00, 0x00]);
    let bytes = f.to_bytes();
    for i in 0..bytes.len() {
        for bit in 0..8 {
            let mut bad = bytes.clone();
            bad[i] ^= 1 << bit;
            match MsgFrame::from_slice(&bad) {
                Err(MsgError::InvalidCRC(_, _)) => {}
                other => panic!("byte {} bit {}: {:?}", i, bit, other),
            }
        }
    }
}

#[test]
fn frame_checksum_known_values() {
    assert_eq!(MsgFrame::new(Code::Ping, &[]).crc(), 0x1D0F);
    assert_eq!(MsgFrame::new(Code::Ping, &[]).to_bytes(), vec![0x00, 0x00, 0x1D, 0x0F]);
    assert_eq!(MsgFrame::new(Code::Good, &[]).crc(), crc_ccitt_false(&[0xFF, 0xFF]));
}

#[test]
fn frame_bytes_with_given_checksum() {
    let f = MsgFrame::new(Code::Ping, &[5]);
    assert_eq!(f.to_bytes_with_crc(0xABCD), vec![0x00, 0x00, 0x05, 0xAB, 0xCD]);
    assert_eq!(f.to_bytes(), f.to_bytes_with_crc(f.crc()));
    assert_ne!(f.crc(), 0xABCD);
}

#[test]
fn opcodes_round_trip_and_unknown_values() {
    let codes = [
        Code::Ping, Code::ItfType, Code::Version, Code::IdGet, Code::GpioDirSet, Code::GpioDirGet,
        Code::GpioRead, Code::GpioWrite, Code::PwmStart, Code::PwmStop, Code::SetFrequency,
        Code::GetFrequency, Code::SetDutyCycle, Code::GetDutycycle, Code::DataTX, Code::DataRXGet,
        Code::BaudSet, Code::BaudGet, Code::SetParity, Code::SetStopBit, Code::SetDataSz,
        Code::HWFlowControl, Code::ComErrStart, Code::ComErrSize, Code::I2cWrite, Code::I2cRead,
        Code::I2CWriteRead, Code::GpioValue, Code::GpioDir, Code::Frequency, Code::DutyCycle,
        Code::ErrFrequency, Code::ErrDutyCycle, Code::DataRX, Code::Baud, Code::Good,
        Code::ErrGeneric, Code::ErrCRC, Code::ErrUnknownCode, Code::ErrInvalidArgs, Code::ErrBusy,
        Code::VersionResp, Code::ItfTypeResp, Code::IdResp,
    ];
    for c in codes.iter() {
        assert_eq!(Code::from_u16(c.to_u16()), Some(*c));
        assert_eq!(Code::from_slice(&c.to_u16().to_be_bytes()), Some(*c));
    }
    assert_eq!(Code::Good.to_u16(), 0xFFFF);
    assert_eq!(Code::I2cWrite.to_u16(), 0x3B00);
    assert_eq!(Code::DataRX.to_u16(), 0xEFFF);
    assert_eq!(Code::from_u16(0x00FF), None);
    assert_eq!(Code::from_u16(0x0004), None);
    assert_eq!(Code::from_u16(0xFFF9), None);
}

#[test]
fn categories_follow_namespaces() {
    assert_eq!(CodeCategory::categorize(&Code::Ping), CodeCategory::ReqGeneric);
    assert_eq!(CodeCategory::categorize(&Code::GpioRead), CodeCategory::ReqGpio);
    assert_eq!(CodeCategory::categorize(&Code::SetFrequency), CodeCategory::ReqPwm);
    assert_eq!(CodeCategory::categorize(&Code::BaudSet), CodeCategory::ReqUart);
    assert_eq!(CodeCategory::categorize(&Code::I2cRead), CodeCategory::ReqI2c);
    assert_eq!(CodeCategory::categorize(&Code::GpioDir), CodeCategory::RespGpio);
    assert_eq!(CodeCategory::categorize(&Code::Frequency), CodeCategory::RespPwm);
    assert_eq!(CodeCategory::categorize(&Code::Baud), CodeCategory::RespUart);
    assert_eq!(CodeCategory::categorize(&Code::IdResp), CodeCategory::RespGeneric);
    assert_eq!(CodeCategory::categorize(&Code::ErrBusy), CodeCategory::StatusGeneric);
    assert!(CodeCategory::ReqI2c.is_request());
    assert!(!CodeCategory::ReqI2c.is_response());
    assert!(CodeCategory::StatusGeneric.is_response());
    assert!(!CodeCategory::RespPwm.is_request());
}

#[test]
fn interface_kinds() {
    assert_eq!(ItfType::from_u8(0x02), Some(ItfType::Pwm));
    assert_eq!(ItfType::from_u8(0x04), Some(ItfType::I2c));
    assert_eq!(ItfType::from_u8(0x05), None);
    assert_eq!(ItfType::Uart.to_u8(), 0x03);
    assert_eq!(HWFlowControlState::from_u8(1), Some(HWFlowControlState::Enable));
    assert_eq!(HWFlowControlState::from_u8(2), None);
    assert_eq!(HWFlowControlState::Disable.to_u8(), 0);
}

#[test]
fn error_frames() {
    let f = MsgError::InvalidLength.to_frame();
    assert_eq!((f.code, f.payload_slice()), (Code::ErrGeneric, "Invalid length".as_bytes()));
    let f = MsgError::InvalidCRC(1, 2).to_frame();
    assert_eq!((f.code, f.payload_slice()), (Code::ErrCRC, "CRC error".as_bytes()));
    let f = MsgError::UnknownCode.to_frame();
    assert_eq!((f.code, f.payload_slice()), (Code::ErrUnknownCode, "Unknown code".as_bytes()));
    let f = MsgError::InvalidArg.to_frame();
    assert_eq!((f.code, f.payload_slice()), (Code::ErrInvalidArgs, "Invalid argument".as_bytes()));
    let f = MsgError::NotARequest(Code::Good).to_frame();
    assert_eq!((f.code, f.payload_slice()), (Code::ErrUnknownCode, "Not a request code".as_bytes()));
    let f = MsgError::NotAResponse(Code::Ping).to_frame();
    assert_eq!((f.code, f.payload_slice()), (Code::ErrUnknownCode, "Not a response code".as_bytes()));
}

#[test]
fn arg_parser_reads_big_endian_and_never_overruns() {
    let data = [0x01, 0x02, 0x03, 0x04, 0x05, 0x06, 0x07, 0x08, 0x09];
    let mut p = ArgParser::new(&data);
    assert_eq!(p.consume_u8(), Some(0x01));
    assert_eq!(p.consume_u16(), Some(0x0203));
    assert_eq!(p.consume_u32(), Some(0x0405_0607));
    assert_eq!(p.consume_u32(), None);
    assert_eq!(p.consume_vector(3), None);
    assert_eq!(p.consume_vector(2), Some(vec![0x08, 0x09]));
    assert_eq!(p.consume_u8(), None);
    assert_eq!(p.consume_u16(), None);

    let empty: [u8; 0] = [];
    let mut p = ArgParser::new(&empty);
    assert_eq!(p.consume_u16(), None);
    assert_eq!(p.consume_u8(), None);
    assert_eq!(p.consume_vector(0), Some(vec![]));
}

#[test]
fn generic_requests_round_trip() {
    for r in [common::Request::Ping, common::Request::ItfType, common::Request::Version, common::Request::IdGet] {
        assert_eq!(common::Request::consume_frame(r.to_frame()), Ok(r));
    }
    let f = MsgFrame::new(Code::Good, &[]);
    assert_eq!(common::Request::consume_frame(f), Err(MsgError::NotARequest(Code::Good)));
}

#[test]
fn generic_responses_round_trip() {
    let cases = vec![
        common::Response::Good,
        common::Response::VersionResp(b"0.1.0".to_vec()),
        common::Response::ItfTypeResp(ItfType::Pwm),
        common::Response::IdResp(vec![1, 2, 3, 4, 5, 6, 7, 8]),
    ];
    for r in cases {
        let f = r.to_frame();
        let back = common::Response::from_frame(&f).unwrap();
        assert_eq!(format!("{:?}", back), format!("{:?}", r));
    }
    let f = MsgFrame::new(Code::ItfTypeResp, &[9]);
    assert_eq!(common::Response::from_frame(&f).unwrap_err(), MsgError::InvalidArg);
    let f = MsgFrame::new(Code::Ping, &[]);
    assert_eq!(common::Response::from_frame(&f).unwrap_err(), MsgError::NotAResponse(Code::Ping));
}

#[test]
fn gpio_requests_and_responses_round_trip() {
    let reqs = [
        gpio::Request::DirSet(4, GpioDir::Input),
        gpio::Request::DirGet(5),
        gpio::Request::Write(6, GpioValue::High),
        gpio::Request::Read(7),
    ];
    for r in reqs {
        assert_eq!(gpio::Request::consume_frame(r.to_frame()), Ok(r));
    }
    let resps = vec![
        gpio::Response::Good,
        gpio::Response::GpioValue(1, GpioValue::High),
        gpio::Response::GpioDir(2, GpioDir::Input),
        gpio::Response::ErrInvalidArgs,
        gpio::Response::ErrGeneric(b"broken".to_vec()),
    ];
    for r in resps {
        let back = gpio::Response::from_frame(&r.to_frame()).unwrap();
        assert_eq!(format!("{:?}", back), format!("{:?}", r));
    }
    assert_eq!(gpio::Request::consume_frame(MsgFrame::new(Code::GpioDirSet, &[1, 3])), Err(MsgError::InvalidArg));
    assert_eq!(gpio::Request::consume_frame(MsgFrame::new(Code::GpioRead, &[])), Err(MsgError::InvalidArg));
}

#[test]
fn pwm_requests_and_responses_round_trip() {
    let reqs = [
        pwm::Request::Enable(1),
        pwm::Request::Disable(2),
        pwm::Request::SetFrequency(3, 1000.0f32.to_bits()),
        pwm::Request::GetFrequency(4),
        pwm::Request::SetDutyCycle(5, 27.9f32.to_bits()),
        pwm::Request::GetDutycycle(6),
    ];
    for r in reqs {
        assert_eq!(pwm::Request::consume_frame(r.to_frame()), Ok(r));
    }
    let f = pwm::Request::SetFrequency(3, 1000.0f32.to_bits()).to_frame();
    assert_eq!(f.payload_slice(), &[3, 0x44, 0x7A, 0x00, 0x00]);
    let resps = vec![
        pwm::Response::Good,
        pwm::Response::Frequency(1, 1550.3f32.to_bits()),
        pwm::Response::DutyCycle(1, 50.0f32.to_bits()),
        pwm::Response::ErrInvalidArgs,
        pwm::Response::ErrGeneric(b"no".to_vec()),
    ];
    for r in resps {
        let back = pwm::Response::from_frame(&r.to_frame()).unwrap();
        assert_eq!(format!("{:?}", back), format!("{:?}", r));
    }
    assert_eq!(pwm::Request::consume_frame(MsgFrame::new(Code::SetFrequency, &[1, 2, 3])), Err(MsgError::InvalidArg));
}

#[test]
fn uart_requests_and_responses_round_trip() {
    let reqs = vec![
        uart::Request::DataTX(vec![0xC0, 0xDB, 1, 2]),
        uart::Request::DataRXGet,
        uart::Request::BaudSet(115200),
        uart::Request::BaudGet,
        uart::Request::SetParity(1),
        uart::Request::SetStopBit(2),
        uart::Request::SetDataSz(8),
        uart::Request::HWFlowControl(HWFlowControlState::Enable),
        uart::Request::ComErrStart,
        uart::Request::ComErrSize,
    ];
    for r in reqs {
        let back = uart::Request::consume_frame(r.to_frame()).unwrap();
        assert_eq!(format!("{:?}", back), format!("{:?}", r));
    }
    let resps = vec![
        uart::Response::Good,
        uart::Response::DataRX(vec![9, 8, 7]),
        uart::Response::Baud(9600),
        uart::Response::ErrInvalidArgs,
        uart::Response::ErrGeneric(b"Error data TX".to_vec()),
    ];
    for r in resps {
        let back = uart::Response::from_frame(&r.to_frame()).unwrap();
        assert_eq!(format!("{:?}", back), format!("{:?}", r));
    }
    assert!(matches!(
        uart::Request::consume_frame(MsgFrame::new(Code::HWFlowControl, &[2])),
        Err(MsgError::InvalidArg)
    ));
}

#[test]
fn i2c_requests_round_trip() {
    let reqs = vec![i2c::Request::Write(0x50, vec![1, 2, 3]), i2c::Request::Read(0x51, vec![])];
    for r in reqs {
        let f = r.to_frame();
        let back = i2c::Request::consume_frame(f).unwrap();
        assert_eq!(format!("{:?}", back), format!("{:?}", r));
    }
    let f = i2c::Request::Write(0x50, vec![1, 2, 3]).to_frame();
    assert_eq!(f.payload_slice(), &[0x50, 3, 1, 2, 3]);
    assert!(matches!(
        i2c::Request::consume_frame(MsgFrame::new(Code::I2cWrite, &[0x50, 4, 1, 2, 3])),
        Err(MsgError::InvalidArg)
    ));
    let mut big = vec![0x50, 33];
    big.extend(std::iter::repeat(0u8).take(33));
    assert!(matches!(i2c::Request::consume_frame(MsgFrame::new(Code::I2cRead, &big)), Err(MsgError::InvalidArg)));
    assert!(matches!(
        i2c::Request::consume_frame(MsgFrame::new(Code::I2CWriteRead, &[])),
        Err(MsgError::NotARequest(Code::I2CWriteRead))
    ));
}
