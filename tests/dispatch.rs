use picoha_protocols::app::{App, GpioCtrl, PwmCtrl, PwmCtrlError, UartCtrl};
use picoha_protocols::gpio::{GpioDir, GpioValue};
use picoha_protocols::ha::{Code, ItfType, MsgFrame};
use picoha_protocols::pwm;
use picoha_protocols::uart::HWFlowControlState;

#[derive(Default)]
struct Board {
    fail: bool,
    dirs: [Option<GpioDir>; 8],
    levels: [bool; 8],
    top: u16,
    div_int: u8,
    div_frac: u8,
    phase_correct: bool,
    enabled: bool,
    duty: u32,
    baud: u32,
    sent: Vec<u8>,
    flow: Option<HWFlowControlState>,
}

impl GpioCtrl for Board {
    fn dir_set(&mut self, idx: u8, dir: GpioDir) -> Result<(), PwmCtrlError> {
        if self.fail || idx as usize >= 8 {
            return Err(PwmCtrlError::PinInvalidIndex);
        }
        self.dirs[idx as usize] = Some(dir);
        Ok(())
    }

    fn dir_get(&mut self, idx: u8) -> Result<GpioDir, PwmCtrlError> {
        self.dirs.get(idx as usize).copied().flatten().ok_or(PwmCtrlError::PinInvalidIndex)
    }

    fn pin_write(&mut self, idx: u8, value: GpioValue) -> Result<(), PwmCtrlError> {
        if idx as usize >= 8 {
            return Err(PwmCtrlError::PinInvalidIndex);
        }
        self.levels[idx as usize] = value == GpioValue::High;
        Ok(())
    }

    fn pin_read(&mut self, idx: u8) -> Result<GpioValue, PwmCtrlError> {
        match self.levels.get(idx as usize) {
            Some(true) => Ok(GpioValue::High),
            Some(false) => Ok(GpioValue::Low),
            None => Err(PwmCtrlError::PinInvalidIndex),
        }
    }
}

impl PwmCtrl for Board {
    fn enable(&mut self, _channel: u8) -> Result<(), PwmCtrlError> {
        if self.fail {
            return Err(PwmCtrlError::PinHalError);
        }
        self.enabled = true;
        Ok(())
    }

    fn disable(&mut self, _channel: u8) -> Result<(), PwmCtrlError> {
        self.enabled = false;
        Ok(())
    }

    fn set_duty(&mut self, _channel: u8, duty_millipercent: u32) -> Result<(), PwmCtrlError> {
        self.duty = duty_millipercent;
        Ok(())
    }

    fn get_duty(&mut self, _channel: u8) -> Result<u32, PwmCtrlError> {
        Ok((self.duty as f32 / 1000.0).to_bits())
    }

    fn get_freq(&mut self, _channel: u8) -> Result<u32, PwmCtrlError> {
        Err(PwmCtrlError::PinConfigError)
    }

    fn set_phase_correct(&mut self, _channel: u8, on: bool) -> Result<(), PwmCtrlError> {
        self.phase_correct = on;
        Ok(())
    }

    fn set_top(&mut self, _channel: u8, top: u16) -> Result<(), PwmCtrlError> {
        self.top = top;
        Ok(())
    }

    fn set_div_int(&mut self, _channel: u8, div_int: u8) -> Result<(), PwmCtrlError> {
        self.div_int = div_int;
        Ok(())
    }

    fn set_div_frac(&mut self, _channel: u8, div_frac: u8) -> Result<(), PwmCtrlError> {
        self.div_frac = div_frac;
        Ok(())
    }
}

impl UartCtrl for Board {
    fn write(&mut self, data: &[u8]) -> Result<(), PwmCtrlError> {
        self.sent.extend_from_slice(data);
        Ok(())
    }

    fn read(&mut self) -> Result<Vec<u8>, PwmCtrlError> {
        Ok(vec![0x42; 3])
    }

    fn set_baud(&mut self, baud: u32) -> Result<(), PwmCtrlError> {
        self.baud = baud;
        Ok(())
    }

    fn get_baud(&mut self) -> Result<u32, PwmCtrlError> {
        Ok(self.baud)
    }

    fn set_parity(&mut self, _parity: u8) -> Result<(), PwmCtrlError> {
        Ok(())
    }

    fn set_stop_bits(&mut self, _stop_bits: u8) -> Result<(), PwmCtrlError> {
        Ok(())
    }

    fn set_data_size(&mut self, _size: u8) -> Result<(), PwmCtrlError> {
        Err(PwmCtrlError::PinConfigError)
    }

    fn set_flow_control(&mut self, state: HWFlowControlState) -> Result<(), PwmCtrlError> {
        self.flow = Some(state);
        Ok(())
    }
}

fn answer(app: &mut App, board: &mut Board, code: Code, payload: &[u8]) -> MsgFrame {
    app.process_frame(board, MsgFrame::new(code, payload))
}

#[test]
fn ping_answers_good_on_every_interface() {
    for itf in [ItfType::Dummy, ItfType::Gpio, ItfType::Pwm, ItfType::Uart, ItfType::I2c] {
        let mut app = App::new(itf, b"1.0.0", &[1, 2, 3, 4, 5, 6, 7, 8]);
        let mut board = Board::default();
        let out = app.process_bytes(&mut board, &[0x00, 0x00, 0x1D, 0x0F]);
        assert_eq!(out, vec![0xFF, 0xFF, 0x00, 0x00]);
    }
}

#[test]
fn unknown_opcode_answers_err_unknown_code() {
    let mut app = App::new(ItfType::Pwm, b"1.0.0", &[0; 8]);
    let mut board = Board::default();
    let out = app.process_bytes(&mut board, &[0x00, 0xFF, 0x03, 0xFF]);
    let f = MsgFrame::from_slice(&out).unwrap();
    assert_eq!(f.code, Code::ErrUnknownCode);
    assert_eq!(f.payload_slice(), b"Unknown code");
}

#[test]
fn bad_checksum_answers_err_crc() {
    let mut app = App::new(ItfType::Pwm, b"1.0.0", &[0; 8]);
    let mut board = Board::default();
    let out = app.process_bytes(&mut board, &[0x00, 0x00, 0x1D, 0x0E]);
    let f = MsgFrame::from_slice(&out).unwrap();
    assert_eq!(f.code, Code::ErrCRC);
    let out = app.process_bytes(&mut board, &[0x00, 0x00, 0x1D]);
    let f = MsgFrame::from_slice(&out).unwrap();
    assert_eq!(f.code, Code::ErrGeneric);
    assert_eq!(f.payload_slice(), b"Invalid length");
}

#[test]
fn generic_requests() {
    let mut app = App::new(ItfType::Uart, b"1.2.3", &[9, 8, 7, 6, 5, 4, 3, 2]);
    let mut board = Board::default();
    let f = answer(&mut app, &mut board, Code::ItfType, &[]);
    assert_eq!((f.code, f.payload_slice()), (Code::ItfTypeResp, &[0x03][..]));
    let f = answer(&mut app, &mut board, Code::Version, &[]);
    assert_eq!((f.code, f.payload_slice()), (Code::VersionResp, &b"1.2.3"[..]));
    let f = answer(&mut app, &mut board, Code::IdGet, &[]);
    assert_eq!((f.code, f.payload_slice()), (Code::IdResp, &[9, 8, 7, 6, 5, 4, 3, 2][..]));
}

#[test]
fn requests_of_other_interfaces_are_unknown() {
    let mut app = App::new(ItfType::Gpio, b"1", &[0; 8]);
    let mut board = Board::default();
    let f = answer(&mut app, &mut board, Code::PwmStart, &[0]);
    assert_eq!(f.code, Code::ErrUnknownCode);
    let f = answer(&mut app, &mut board, Code::I2cWrite, &[0x50, 0]);
    assert_eq!(f.code, Code::ErrUnknownCode);
    let f = answer(&mut app, &mut board, Code::Good, &[]);
    assert_eq!(f.code, Code::ErrUnknownCode);
}

#[test]
fn gpio_fixture_through_dispatcher() {
    let mut app = App::new(ItfType::Gpio, b"1", &[0; 8]);
    let mut board = Board::default();
    let out = app.process_bytes(&mut board, &[0x01, 0x00, 0x02, 0x02, 0xB4, 0x54]);
    assert_eq!(MsgFrame::from_slice(&out).unwrap().code, Code::Good);
    assert_eq!(board.dirs[2], Some(GpioDir::Output));
    let f = answer(&mut app, &mut board, Code::GpioDirGet, &[2]);
    assert_eq!((f.code, f.payload_slice()), (Code::GpioDir, &[2, 0x02][..]));
    let f = answer(&mut app, &mut board, Code::GpioDirGet, &[3]);
    assert_eq!(f.code, Code::ErrInvalidArgs);
    let f = answer(&mut app, &mut board, Code::GpioWrite, &[1, 1]);
    assert_eq!(f.code, Code::Good);
    let f = answer(&mut app, &mut board, Code::GpioRead, &[1]);
    assert_eq!((f.code, f.payload_slice()), (Code::GpioValue, &[1, 0x01][..]));
    let f = answer(&mut app, &mut board, Code::GpioDirSet, &[2]);
    assert_eq!(f.code, Code::ErrInvalidArgs);
    board.fail = true;
    let f = answer(&mut app, &mut board, Code::GpioDirSet, &[2, 1]);
    assert_eq!((f.code, f.payload_slice()), (Code::ErrGeneric, &b"Cannot set into desired direction"[..]));
}

#[test]
fn pwm_set_frequency_commits_quantized_registers() {
    let mut app = App::new(ItfType::Pwm, b"1", &[0; 8]);
    let mut board = Board::default();
    let req = pwm::Request::SetFrequency(5, 1000.0f32.to_bits()).to_frame();
    let f = app.process_frame(&mut board, req);
    assert_eq!(f.code, Code::Good);
    assert_eq!((board.top, board.div_int, board.div_frac, board.phase_correct), (62_499, 1, 0, true));

    let req = pwm::Request::SetFrequency(5, 5.6f32.to_bits()).to_frame();
    let f = app.process_frame(&mut board, req);
    assert_eq!(f.code, Code::Good);
    assert_eq!((board.top, board.div_int), (43_774, 255));
}

#[test]
fn pwm_rejects_unusable_values() {
    let mut app = App::new(ItfType::Pwm, b"1", &[0; 8]);
    let mut board = Board::default();
    for bits in [0.0f32.to_bits(), (-5.0f32).to_bits(), f32::NAN.to_bits()] {
        let f = app.process_frame(&mut board, pwm::Request::SetFrequency(0, bits).to_frame());
        assert_eq!(f.code, Code::ErrInvalidArgs);
    }
    let f = app.process_frame(&mut board, pwm::Request::SetDutyCycle(0, 100.5f32.to_bits()).to_frame());
    assert_eq!(f.code, Code::ErrInvalidArgs);
    assert_eq!(board.top, 0);
}

#[test]
fn pwm_duty_enable_and_failures() {
    let mut app = App::new(ItfType::Pwm, b"1", &[0; 8]);
    let mut board = Board::default();
    let f = app.process_frame(&mut board, pwm::Request::SetDutyCycle(1, 27.5f32.to_bits()).to_frame());
    assert_eq!(f.code, Code::Good);
    assert_eq!(board.duty, 27_500);
    let f = answer(&mut app, &mut board, Code::GetDutycycle, &[1]);
    assert_eq!(f.code, Code::DutyCycle);
    assert_eq!(f.payload_slice(), &[&[1u8][..], &27.5f32.to_bits().to_be_bytes()[..]].concat()[..]);
    let f = answer(&mut app, &mut board, Code::GetFrequency, &[1]);
    assert_eq!(f.code, Code::ErrInvalidArgs);
    let f = answer(&mut app, &mut board, Code::PwmStart, &[1]);
    assert_eq!(f.code, Code::Good);
    assert!(board.enabled);
    board.fail = true;
    let f = answer(&mut app, &mut board, Code::PwmStart, &[1]);
    assert_eq!((f.code, f.payload_slice()), (Code::ErrGeneric, &b"Cannot enable channel"[..]));
}

#[test]
fn uart_requests_reach_the_port() {
    let mut app = App::new(ItfType::Uart, b"1", &[0; 8]);
    let mut board = Board::default();
    let f = answer(&mut app, &mut board, Code::DataTX, &[1, 2, 3]);
    assert_eq!(f.code, Code::Good);
    assert_eq!(board.sent, vec![1, 2, 3]);
    let f = answer(&mut app, &mut board, Code::BaudSet, &115200u32.to_be_bytes());
    assert_eq!(f.code, Code::Good);
    let f = answer(&mut app, &mut board, Code::BaudGet, &[]);
    assert_eq!((f.code, f.payload_slice()), (Code::Baud, &115200u32.to_be_bytes()[..]));
    let f = answer(&mut app, &mut board, Code::DataRXGet, &[]);
    assert_eq!((f.code, f.payload_slice()), (Code::DataRX, &[0x42, 0x42, 0x42][..]));
    let f = answer(&mut app, &mut board, Code::SetDataSz, &[8]);
    assert_eq!((f.code, f.payload_slice()), (Code::ErrGeneric, &b"Cannot configure port"[..]));
    let f = answer(&mut app, &mut board, Code::HWFlowControl, &[1]);
    assert_eq!(f.code, Code::Good);
    assert_eq!(board.flow, Some(HWFlowControlState::Enable));
    let f = answer(&mut app, &mut board, Code::ComErrStart, &[]);
    assert_eq!((f.code, f.payload_slice()), (Code::ErrGeneric, &b"Unsupported request"[..]));
    let f = answer(&mut app, &mut board, Code::BaudSet, &[1, 2]);
    assert_eq!(f.code, Code::ErrInvalidArgs);
}
