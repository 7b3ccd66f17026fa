//! The dispatcher: routes each frame to its interface, drives the hardware
//! port and answers with a frame.
use vstd::prelude::*;
use vstd::slice::slice_to_vec;
use vstd::string::StringSliceAdditionalSpecFns;
use crate::ha::{Code, CodeCategory, ItfType, MsgError, MsgFrame, PAYLOAD_CAPACITY, category_of_value, spec_from_slice};
use crate::common;
use crate::gpio::{self, GpioDir, GpioValue};
use crate::pwm;
use crate::uart::{self, HWFlowControlState};
use crate::quantizer::{Quantized, quantize, quantized_for, searched, single_to_millis, single_millis, SYS_CLOCK_HZ};

verus! {

/// Why a hardware port refused an operation.
#[derive(Clone, Copy, Debug, PartialEq, Eq, Structural)]
pub enum PwmCtrlError {
    InitError,
    PinConfigError,
    PinHalError,
    /// Invalid requested direction.
    PinInvalidDir,
    /// Invalid pin or channel index.
    PinInvalidIndex,
    /// Requested pin is not in the given direction.
    PinMismatchDir,
}

/// Hardware port of the GPIO interface.
pub trait GpioCtrl {
    fn dir_set(&mut self, idx: u8, dir: GpioDir) -> Result<(), PwmCtrlError>;

    fn dir_get(&mut self, idx: u8) -> Result<GpioDir, PwmCtrlError>;

    fn pin_write(&mut self, idx: u8, value: GpioValue) -> Result<(), PwmCtrlError>;

    fn pin_read(&mut self, idx: u8) -> Result<GpioValue, PwmCtrlError>;
}

/// Hardware port of the PWM interface. Duty cycles are handed over in
/// thousandths of a percent; values read back are IEEE-754 single-precision
/// bit patterns (percent, hertz).
pub trait PwmCtrl {
    fn enable(&mut self, channel: u8) -> Result<(), PwmCtrlError>;

    fn disable(&mut self, channel: u8) -> Result<(), PwmCtrlError>;

    fn set_duty(&mut self, channel: u8, duty_millipercent: u32) -> Result<(), PwmCtrlError>;

    fn get_duty(&mut self, channel: u8) -> Result<u32, PwmCtrlError>;

    fn get_freq(&mut self, channel: u8) -> Result<u32, PwmCtrlError>;

    fn set_phase_correct(&mut self, channel: u8, on: bool) -> Result<(), PwmCtrlError>;

    fn set_top(&mut self, channel: u8, top: u16) -> Result<(), PwmCtrlError>;

    fn set_div_int(&mut self, channel: u8, div_int: u8) -> Result<(), PwmCtrlError>;

    fn set_div_frac(&mut self, channel: u8, div_frac: u8) -> Result<(), PwmCtrlError>;
}

/// Hardware port of the UART interface.
pub trait UartCtrl {
    fn write(&mut self, data: &[u8]) -> Result<(), PwmCtrlError>;

    fn read(&mut self) -> Result<Vec<u8>, PwmCtrlError>;

    fn set_baud(&mut self, baud: u32) -> Result<(), PwmCtrlError>;

    fn get_baud(&mut self) -> Result<u32, PwmCtrlError>;

    fn set_parity(&mut self, parity: u8) -> Result<(), PwmCtrlError>;

    fn set_stop_bits(&mut self, stop_bits: u8) -> Result<(), PwmCtrlError>;

    fn set_data_size(&mut self, size: u8) -> Result<(), PwmCtrlError>;

    fn set_flow_control(&mut self, state: HWFlowControlState) -> Result<(), PwmCtrlError>;
}

fn reason(text: &str) -> (r: Vec<u8>)
    requires
        text.spec_bytes().len() <= PAYLOAD_CAPACITY,
    ensures
        r@ == text.spec_bytes(),
{
    slice_to_vec(text.as_bytes())
}

/// Largest duty cycle, in thousandths of a percent.
pub const FULL_DUTY_MILLIPERCENT: u64 = 100_000;

/// What a PWM request asks of the hardware.
#[derive(Clone, Copy, Debug, PartialEq, Eq, Structural)]
pub enum PwmAction {
    Enable(u8),
    Disable(u8),
    /// Commit quantized divider settings to a channel.
    Configure(u8, Quantized),
    /// Set a duty cycle, in thousandths of a percent.
    SetDuty(u8, u32),
    GetDuty(u8),
    GetFrequency(u8),
    /// The request carries a value no hardware setting meets.
    Reject,
}

/// Whether `r` is the hardware work that `req` calls for.
pub open spec fn pwm_action_for(req: pwm::Request, r: PwmAction) -> bool {
        match req {
        pwm::Request::Enable(c) => r == PwmAction::Enable(c),
        pwm::Request::Disable(c) => r == PwmAction::Disable(c),
        pwm::Request::SetFrequency(c, bits) => match single_millis(bits) {
            Some(f) => if f >= 1 {
                exists|q: Quantized| r == PwmAction::Configure(c, q) && quantized_for(SYS_CLOCK_HZ, f as u64, q)
                    && searched(SYS_CLOCK_HZ, f as u64, q)
            } else {
                r == PwmAction::Reject
            },
            None => r == PwmAction::Reject,
        },
        pwm::Request::GetFrequency(c) => r == PwmAction::GetFrequency(c),
        pwm::Request::SetDutyCycle(c, bits) => match single_millis(bits) {
            Some(d) => if d <= FULL_DUTY_MILLIPERCENT {
                r == PwmAction::SetDuty(c, d as u32)
            } else {
                r == PwmAction::Reject
            },
            None => r == PwmAction::Reject,
        },
        pwm::Request::GetDutycycle(c) => r == PwmAction::GetDuty(c),
    }
}

/// The hardware work a PWM request calls for: frequencies are quantized,
/// duty cycles read in thousandths of a percent; a value that is negative,
/// not a number, a zero frequency or a duty cycle over 100 % is rejected.
pub fn pwm_action(req: &pwm::Request) -> (r: PwmAction)
    ensures
        pwm_action_for(*req, r),
{
    match *req {
        pwm::Request::Enable(c) => PwmAction::Enable(c),
        pwm::Request::Disable(c) => PwmAction::Disable(c),
        pwm::Request::SetFrequency(c, bits) => match single_to_millis(bits) {
            Some(f) => if f >= 1 {
                PwmAction::Configure(c, quantize(SYS_CLOCK_HZ, f))
            } else {
                PwmAction::Reject
            },
            None => PwmAction::Reject,
        },
        pwm::Request::GetFrequency(c) => PwmAction::GetFrequency(c),
        pwm::Request::SetDutyCycle(c, bits) => match single_to_millis(bits) {
            Some(d) => if d <= FULL_DUTY_MILLIPERCENT {
                PwmAction::SetDuty(c, d as u32)
            } else {
                PwmAction::Reject
            },
            None => PwmAction::Reject,
        },
        pwm::Request::GetDutycycle(c) => PwmAction::GetDuty(c),
    }
}

/// What a hardware port answered.
#[derive(Clone, Copy, Debug, PartialEq, Eq, Structural)]
pub enum PortOutcome {
    Done,
    Value(u32),
    Failed,
}

/// Why a PWM action failed, as text.
pub open spec fn pwm_failure(action: PwmAction) -> Seq<u8> {
    match action {
        PwmAction::Enable(_) => "Cannot enable channel".spec_bytes(),
        PwmAction::Disable(_) => "Cannot disable channel".spec_bytes(),
        PwmAction::Configure(_, _) => "Cannot set into desired frequency".spec_bytes(),
        _ => "Cannot set into desired duty cycle".spec_bytes(),
    }
}

/// The answer to a PWM action given what the port answered: rejected
/// values give `ErrInvalidArgs`; a failed setting gives `ErrGeneric` with a
/// reason; a read gives its value, or `ErrInvalidArgs` when there is none.
pub open spec fn spec_pwm_reply(action: PwmAction, outcome: PortOutcome) -> pwm::ResponseView {
    match action {
        PwmAction::Reject => pwm::ResponseView::ErrInvalidArgs,
        PwmAction::GetDuty(c) => match outcome {
            PortOutcome::Value(v) => pwm::ResponseView::DutyCycle(c, v),
            _ => pwm::ResponseView::ErrInvalidArgs,
        },
        PwmAction::GetFrequency(c) => match outcome {
            PortOutcome::Value(v) => pwm::ResponseView::Frequency(c, v),
            _ => pwm::ResponseView::ErrInvalidArgs,
        },
        _ => match outcome {
            PortOutcome::Failed => pwm::ResponseView::ErrGeneric(pwm_failure(action)),
            _ => pwm::ResponseView::Good,
        },
    }
}

/// The answer to a PWM action given what the port answered.
pub fn pwm_reply(action: PwmAction, outcome: PortOutcome) -> (r: pwm::Response)
    ensures
        r@ == spec_pwm_reply(action, outcome),
        r@.wf(),
{
    broadcast use vstd::string::is_ascii_spec_bytes;
    match action {
        PwmAction::Reject => pwm::Response::ErrInvalidArgs,
        PwmAction::GetDuty(c) => match outcome {
            PortOutcome::Value(v) => pwm::Response::DutyCycle(c, v),
            _ => pwm::Response::ErrInvalidArgs,
        },
        PwmAction::GetFrequency(c) => match outcome {
            PortOutcome::Value(v) => pwm::Response::Frequency(c, v),
            _ => pwm::Response::ErrInvalidArgs,
        },
        _ => match outcome {
            PortOutcome::Failed => {
                let text = match action {
                    PwmAction::Enable(_) => {
                        proof { reveal_strlit("Cannot enable channel"); assert(vstd::string::is_ascii("Cannot enable channel")); }
                        "Cannot enable channel"
                    },
                    PwmAction::Disable(_) => {
                        proof { reveal_strlit("Cannot disable channel"); assert(vstd::string::is_ascii("Cannot disable channel")); }
                        "Cannot disable channel"
                    },
                    PwmAction::Configure(_, _) => {
                        proof { reveal_strlit("Cannot set into desired frequency"); assert(vstd::string::is_ascii("Cannot set into desired frequency")); }
                        "Cannot set into desired frequency"
                    },
                    _ => {
                        proof { reveal_strlit("Cannot set into desired duty cycle"); assert(vstd::string::is_ascii("Cannot set into desired duty cycle")); }
                        "Cannot set into desired duty cycle"
                    },
                };
                pwm::Response::ErrGeneric(reason(text))
            },
            _ => pwm::Response::Good,
        },
    }
}

/// Performs a PWM action on the port. A rejected request touches nothing.
fn run_pwm<P: PwmCtrl>(port: &mut P, action: PwmAction) -> PortOutcome {
    let done = |r: Result<(), PwmCtrlError>| -> (o: PortOutcome)
        {
            match r {
                Ok(_) => PortOutcome::Done,
                Err(_) => PortOutcome::Failed,
            }
        };
    match action {
        PwmAction::Enable(c) => done(port.enable(c)),
        PwmAction::Disable(c) => done(port.disable(c)),
        PwmAction::Configure(c, q) => {
            if port.set_phase_correct(c, q.phase_correct).is_err() {
                return PortOutcome::Failed;
            }
            if port.set_top(c, q.top).is_err() {
                return PortOutcome::Failed;
            }
            if port.set_div_int(c, q.div_int).is_err() {
                return PortOutcome::Failed;
            }
            done(port.set_div_frac(c, q.div_frac))
        },
        PwmAction::SetDuty(c, d) => done(port.set_duty(c, d)),
        PwmAction::GetDuty(c) => match port.get_duty(c) {
            Ok(v) => PortOutcome::Value(v),
            Err(_) => PortOutcome::Failed,
        },
        PwmAction::GetFrequency(c) => match port.get_freq(c) {
            Ok(v) => PortOutcome::Value(v),
            Err(_) => PortOutcome::Failed,
        },
        PwmAction::Reject => PortOutcome::Failed,
    }
}

/// What a GPIO port answered.
#[derive(Clone, Copy, Debug, PartialEq, Eq, Structural)]
pub enum GpioOutcome {
    Done,
    Dir(GpioDir),
    Level(GpioValue),
    Failed,
}

/// The answer to a GPIO request given what the port answered: a failed
/// setting gives `ErrGeneric` with a reason, a read its value or
/// `ErrInvalidArgs` when there is none.
pub open spec fn spec_gpio_reply(req: gpio::Request, outcome: GpioOutcome) -> gpio::ResponseView {
    match req {
        gpio::Request::DirSet(_, _) => match outcome {
            GpioOutcome::Failed => gpio::ResponseView::ErrGeneric("Cannot set into desired direction".spec_bytes()),
            _ => gpio::ResponseView::Good,
        },
        gpio::Request::DirGet(i) => match outcome {
            GpioOutcome::Dir(d) => gpio::ResponseView::GpioDir(i, d),
            _ => gpio::ResponseView::ErrInvalidArgs,
        },
        gpio::Request::Write(_, _) => match outcome {
            GpioOutcome::Failed => gpio::ResponseView::ErrGeneric("Cannot set into desired value".spec_bytes()),
            _ => gpio::ResponseView::Good,
        },
        gpio::Request::Read(i) => match outcome {
            GpioOutcome::Level(v) => gpio::ResponseView::GpioValue(i, v),
            _ => gpio::ResponseView::ErrInvalidArgs,
        },
    }
}

/// The answer to a GPIO request given what the port answered.
pub fn gpio_reply(req: gpio::Request, outcome: GpioOutcome) -> (r: gpio::Response)
    ensures
        r@ == spec_gpio_reply(req, outcome),
        r@.wf(),
{
    broadcast use vstd::string::is_ascii_spec_bytes;
    match req {
        gpio::Request::DirSet(_, _) => match outcome {
            GpioOutcome::Failed => {
                proof { reveal_strlit("Cannot set into desired direction"); assert(vstd::string::is_ascii("Cannot set into desired direction")); }
                gpio::Response::ErrGeneric(reason("Cannot set into desired direction"))
            },
            _ => gpio::Response::Good,
        },
        gpio::Request::DirGet(i) => match outcome {
            GpioOutcome::Dir(d) => gpio::Response::GpioDir(i, d),
            _ => gpio::Response::ErrInvalidArgs,
        },
        gpio::Request::Write(_, _) => match outcome {
            GpioOutcome::Failed => {
                proof { reveal_strlit("Cannot set into desired value"); assert(vstd::string::is_ascii("Cannot set into desired value")); }
                gpio::Response::ErrGeneric(reason("Cannot set into desired value"))
            },
            _ => gpio::Response::Good,
        },
        gpio::Request::Read(i) => match outcome {
            GpioOutcome::Level(v) => gpio::Response::GpioValue(i, v),
            _ => gpio::Response::ErrInvalidArgs,
        },
    }
}

/// Performs a GPIO request on the port.
fn run_gpio<P: GpioCtrl>(port: &mut P, req: gpio::Request) -> GpioOutcome {
    match req {
        gpio::Request::DirSet(i, d) => match port.dir_set(i, d) {
            Ok(_) => GpioOutcome::Done,
            Err(_) => GpioOutcome::Failed,
        },
        gpio::Request::DirGet(i) => match port.dir_get(i) {
            Ok(d) => GpioOutcome::Dir(d),
            Err(_) => GpioOutcome::Failed,
        },
        gpio::Request::Write(i, v) => match port.pin_write(i, v) {
            Ok(_) => GpioOutcome::Done,
            Err(_) => GpioOutcome::Failed,
        },
        gpio::Request::Read(i) => match port.pin_read(i) {
            Ok(v) => GpioOutcome::Level(v),
            Err(_) => GpioOutcome::Failed,
        },
    }
}

/// What a UART port answered.
#[derive(Debug)]
pub enum UartOutcome {
    Done,
    Baud(u32),
    Data(Vec<u8>),
    Failed,
}

/// A UART port answer with its bytes seen as a sequence.
pub enum UartOutcomeView {
    Done,
    Baud(u32),
    Data(Seq<u8>),
    Failed,
}

impl View for UartOutcome {
    type V = UartOutcomeView;

    open spec fn view(&self) -> UartOutcomeView {
        match self {
            UartOutcome::Done => UartOutcomeView::Done,
            UartOutcome::Baud(b) => UartOutcomeView::Baud(*b),
            UartOutcome::Data(d) => UartOutcomeView::Data(d@),
            UartOutcome::Failed => UartOutcomeView::Failed,
        }
    }
}

/// The answer to a UART setting: `Good`, or `ErrGeneric` with `why`.
pub open spec fn uart_setting_reply(outcome: UartOutcomeView, why: Seq<u8>) -> uart::ResponseView {
    match outcome {
        UartOutcomeView::Failed => uart::ResponseView::ErrGeneric(why),
        _ => uart::ResponseView::Good,
    }
}

/// The answer to a UART request given what the port answered. Received
/// data longer than a frame can carry is reported as a failure; the
/// communication error counters are not supported.
pub open spec fn spec_uart_reply(req: uart::RequestView, outcome: UartOutcomeView) -> uart::ResponseView {
    match req {
        uart::RequestView::DataTX(_) => uart_setting_reply(outcome, "Cannot transmit data".spec_bytes()),
        uart::RequestView::DataRXGet => match outcome {
            UartOutcomeView::Data(d) => if d.len() <= PAYLOAD_CAPACITY {
                uart::ResponseView::DataRX(d)
            } else {
                uart::ResponseView::ErrGeneric("Received data too long".spec_bytes())
            },
            _ => uart::ResponseView::ErrInvalidArgs,
        },
        uart::RequestView::BaudSet(_) => uart_setting_reply(outcome, "Cannot set baud rate".spec_bytes()),
        uart::RequestView::BaudGet => match outcome {
            UartOutcomeView::Baud(b) => uart::ResponseView::Baud(b),
            _ => uart::ResponseView::ErrInvalidArgs,
        },
        uart::RequestView::ComErrStart => uart::ResponseView::ErrGeneric("Unsupported request".spec_bytes()),
        uart::RequestView::ComErrSize => uart::ResponseView::ErrGeneric("Unsupported request".spec_bytes()),
        _ => uart_setting_reply(outcome, "Cannot configure port".spec_bytes()),
    }
}

fn uart_setting(outcome: UartOutcome, why: &str) -> (r: uart::Response)
    requires
        why.spec_bytes().len() <= PAYLOAD_CAPACITY,
    ensures
        r@ == uart_setting_reply(outcome@, why.spec_bytes()),
        r@.wf(),
{
    match outcome {
        UartOutcome::Failed => uart::Response::ErrGeneric(reason(why)),
        _ => uart::Response::Good,
    }
}

/// The answer to a UART request given what the port answered.
pub fn uart_reply(req: &uart::Request, outcome: UartOutcome) -> (r: uart::Response)
    ensures
        r@ == spec_uart_reply(req@, outcome@),
        r@.wf(),
{
    broadcast use vstd::string::is_ascii_spec_bytes;
    match req {
        uart::Request::DataTX(_) => {
            proof { reveal_strlit("Cannot transmit data"); assert(vstd::string::is_ascii("Cannot transmit data")); }
            uart_setting(outcome, "Cannot transmit data")
        },
        uart::Request::DataRXGet => match outcome {
            UartOutcome::Data(d) => if d.len() <= PAYLOAD_CAPACITY {
                uart::Response::DataRX(d)
            } else {
                proof { reveal_strlit("Received data too long"); assert(vstd::string::is_ascii("Received data too long")); }
                uart::Response::ErrGeneric(reason("Received data too long"))
            },
            _ => uart::Response::ErrInvalidArgs,
        },
        uart::Request::BaudSet(_) => {
            proof { reveal_strlit("Cannot set baud rate"); assert(vstd::string::is_ascii("Cannot set baud rate")); }
            uart_setting(outcome, "Cannot set baud rate")
        },
        uart::Request::BaudGet => match outcome {
            UartOutcome::Baud(b) => uart::Response::Baud(b),
            _ => uart::Response::ErrInvalidArgs,
        },
        uart::Request::ComErrStart | uart::Request::ComErrSize => {
            proof { reveal_strlit("Unsupported request"); assert(vstd::string::is_ascii("Unsupported request")); }
            uart::Response::ErrGeneric(reason("Unsupported request"))
        },
        _ => {
            proof { reveal_strlit("Cannot configure port"); assert(vstd::string::is_ascii("Cannot configure port")); }
            uart_setting(outcome, "Cannot configure port")
        },
    }
}

fn setting_outcome(r: Result<(), PwmCtrlError>) -> UartOutcome {
    match r {
        Ok(_) => UartOutcome::Done,
        Err(_) => UartOutcome::Failed,
    }
}

/// Performs a UART request on the port. The error counter requests touch
/// nothing.
fn run_uart<P: UartCtrl>(port: &mut P, req: &uart::Request) -> UartOutcome {
    match req {
        uart::Request::DataTX(d) => setting_outcome(port.write(d.as_slice())),
        uart::Request::DataRXGet => match port.read() {
            Ok(d) => UartOutcome::Data(d),
            Err(_) => UartOutcome::Failed,
        },
        uart::Request::BaudSet(b) => setting_outcome(port.set_baud(*b)),
        uart::Request::BaudGet => match port.get_baud() {
            Ok(b) => UartOutcome::Baud(b),
            Err(_) => UartOutcome::Failed,
        },
        uart::Request::SetParity(p) => setting_outcome(port.set_parity(*p)),
        uart::Request::SetStopBit(s) => setting_outcome(port.set_stop_bits(*s)),
        uart::Request::SetDataSz(s) => setting_outcome(port.set_data_size(*s)),
        uart::Request::HWFlowControl(f) => setting_outcome(port.set_flow_control(*f)),
        uart::Request::ComErrStart | uart::Request::ComErrSize => UartOutcome::Failed,
    }
}

/// Whether a frame carries exactly `code` and `payload`.
pub open spec fn frame_is(f: MsgFrame, code: Code, payload: Seq<u8>) -> bool {
    f.code == code && f.payload() == payload
}

/// The frame that reports `e`.
pub open spec fn error_frame_is(code: Code, payload: Seq<u8>, e: MsgError) -> bool {
    code == e.status_code() && payload == e.reason().spec_bytes()
}

/// The dispatcher: answers requests for the generic interface and for the
/// one interface it was built for.
pub struct App {
    itf: ItfType,
    version: Vec<u8>,
    id: Vec<u8>,
}

impl App {
    /// The interface this firmware exposes.
    pub closed spec fn itf(&self) -> ItfType {
        self.itf
    }

    /// The version text, as bytes.
    pub closed spec fn version(&self) -> Seq<u8> {
        self.version@
    }

    /// The device identifier.
    pub closed spec fn id(&self) -> Seq<u8> {
        self.id@
    }

    /// Whether the invariant of the value holds.
    pub open spec fn wf(&self) -> bool {
        self.version().len() <= PAYLOAD_CAPACITY && self.id().len() <= PAYLOAD_CAPACITY
    }

    /// A dispatcher for interface `itf` that reports `version` and `id`.
    pub fn new(itf: ItfType, version: &[u8], id: &[u8]) -> (r: Self)
        requires
            version@.len() <= PAYLOAD_CAPACITY,
            id@.len() <= PAYLOAD_CAPACITY,
        ensures
            r.wf(),
            r.itf() == itf,
            r.version() == version@,
            r.id() == id@,
    {
        Self { itf, version: slice_to_vec(version), id: slice_to_vec(id) }
    }

    /// The answer to a generic request.
    pub open spec fn generic_reply(&self, req: common::Request) -> common::ResponseView {
        match req {
            common::Request::Ping => common::ResponseView::Good,
            common::Request::ItfType => common::ResponseView::ItfTypeResp(self.itf()),
            common::Request::Version => common::ResponseView::VersionResp(self.version()),
            common::Request::IdGet => common::ResponseView::IdResp(self.id()),
        }
    }

    /// Answers a generic request: `Good` to a ping, the interface kind, the
    /// version text or the device identifier.
    pub fn process_generic(&self, frame: MsgFrame) -> (r: Result<MsgFrame, MsgError>)
        requires
            self.wf(),
        ensures
            match common::decode_request(frame.code, frame.payload()) {
                Ok(req) => r is Ok && frame_is(r.unwrap(), self.generic_reply(req).code(), self.generic_reply(req).payload()),
                Err(e) => r == Err::<MsgFrame, MsgError>(e),
            },
    {
        let req = common::Request::consume_frame(frame)?;
        let resp = match req {
            common::Request::Ping => common::Response::Good,
            common::Request::ItfType => common::Response::ItfTypeResp(self.itf),
            common::Request::Version => common::Response::VersionResp(self.version.clone()),
            common::Request::IdGet => common::Response::IdResp(self.id.clone()),
        };
        Ok(resp.to_frame())
    }

    /// Answers a GPIO request through the port.
    pub fn process_gpio<P: GpioCtrl>(&self, platf: &mut P, frame: MsgFrame) -> (r: Result<MsgFrame, MsgError>)
        ensures
            match gpio::decode_request(frame.code, frame.payload()) {
                Ok(req) => r is Ok && exists|o: GpioOutcome| frame_is(r.unwrap(), spec_gpio_reply(req, o).code(), spec_gpio_reply(req, o).payload()),
                Err(e) => r == Err::<MsgFrame, MsgError>(e),
            },
    {
        let req = gpio::Request::consume_frame(frame)?;
        let outcome = run_gpio(platf, req);
        Ok(gpio_reply(req, outcome).to_frame())
    }

    /// Answers a PWM request: works out what the request calls for, has the
    /// port do it and reports the outcome.
    pub fn process_pwm<P: PwmCtrl>(&self, platf: &mut P, frame: MsgFrame) -> (r: Result<MsgFrame, MsgError>)
        ensures
            match pwm::decode_request(frame.code, frame.payload()) {
                Ok(req) => r is Ok && exists|a: PwmAction, o: PortOutcome| pwm_action_for(req, a)
                    && frame_is(r.unwrap(), spec_pwm_reply(a, o).code(), spec_pwm_reply(a, o).payload()),
                Err(e) => r == Err::<MsgFrame, MsgError>(e),
            },
    {
        let req = pwm::Request::consume_frame(frame)?;
        let action = pwm_action(&req);
        let outcome = run_pwm(platf, action);
        Ok(pwm_reply(action, outcome).to_frame())
    }

    /// Answers a UART request through the port.
    pub fn process_uart<P: UartCtrl>(&self, platf: &mut P, frame: MsgFrame) -> (r: Result<MsgFrame, MsgError>)
        ensures
            match uart::decode_request(frame.code, frame.payload()) {
                Ok(req) => r is Ok && exists|o: UartOutcomeView| frame_is(r.unwrap(), spec_uart_reply(req, o).code(), spec_uart_reply(req, o).payload()),
                Err(e) => r == Err::<MsgFrame, MsgError>(e),
            },
    {
        let req = uart::Request::consume_frame(frame)?;
        let outcome = run_uart(platf, &req);
        let ghost o = outcome@;
        Ok(uart_reply(&req, outcome).to_frame())
    }

    /// Whether `(rc, rp)` is an answer this dispatcher may give to the frame
    /// `(code, payload)`: generic requests and those of the interface it was
    /// built for are decoded and answered, whatever the port reports;
    /// anything else is answered with the unknown-code error.
    pub open spec fn answers(&self, code: Code, payload: Seq<u8>, rc: Code, rp: Seq<u8>) -> bool {
        let cat = category_of_value(code.value());
        if cat == Some(CodeCategory::ReqGeneric) {
            match common::decode_request(code, payload) {
                Ok(req) => rc == self.generic_reply(req).code() && rp == self.generic_reply(req).payload(),
                Err(e) => error_frame_is(rc, rp, e),
            }
        } else if cat == Some(CodeCategory::ReqGpio) && self.itf() == ItfType::Gpio {
            match gpio::decode_request(code, payload) {
                Ok(req) => exists|o: GpioOutcome| rc == spec_gpio_reply(req, o).code() && rp == spec_gpio_reply(req, o).payload(),
                Err(e) => error_frame_is(rc, rp, e),
            }
        } else if cat == Some(CodeCategory::ReqPwm) && self.itf() == ItfType::Pwm {
            match pwm::decode_request(code, payload) {
                Ok(req) => exists|a: PwmAction, o: PortOutcome| pwm_action_for(req, a)
                    && rc == spec_pwm_reply(a, o).code() && rp == spec_pwm_reply(a, o).payload(),
                Err(e) => error_frame_is(rc, rp, e),
            }
        } else if cat == Some(CodeCategory::ReqUart) && self.itf() == ItfType::Uart {
            match uart::decode_request(code, payload) {
                Ok(req) => exists|o: UartOutcomeView| rc == spec_uart_reply(req, o).code() && rp == spec_uart_reply(req, o).payload(),
                Err(e) => error_frame_is(rc, rp, e),
            }
        } else {
            error_frame_is(rc, rp, MsgError::UnknownCode)
        }
    }

    /// Routes a frame by the category of its opcode and always answers with
    /// a frame: a decoding failure, or an opcode that is not a request of an
    /// installed interface, is answered with its error frame.
    pub fn process_frame<P: GpioCtrl + PwmCtrl + UartCtrl>(&mut self, platf: &mut P, frame: MsgFrame) -> (r: MsgFrame)
        requires
            old(self).wf(),
        ensures
            *final(self) == *old(self),
            old(self).answers(frame.code, frame.payload(), r.code, r.payload()),
    {
        let ghost code = frame.code;
        let ghost payload = frame.payload();
        let cat = CodeCategory::categorize(&frame.code);
        let result = match cat {
            CodeCategory::ReqGeneric => self.process_generic(frame),
            CodeCategory::ReqGpio => if self.itf == ItfType::Gpio {
                self.process_gpio(platf, frame)
            } else {
                Err(MsgError::UnknownCode)
            },
            CodeCategory::ReqPwm => if self.itf == ItfType::Pwm {
                self.process_pwm(platf, frame)
            } else {
                Err(MsgError::UnknownCode)
            },
            CodeCategory::ReqUart => if self.itf == ItfType::Uart {
                self.process_uart(platf, frame)
            } else {
                Err(MsgError::UnknownCode)
            },
            _ => Err(MsgError::UnknownCode),
        };
        match result {
            Ok(f) => f,
            Err(e) => e.to_frame(),
        }
    }

    /// Answers one raw frame (opcode, payload, checksum) with the raw bytes
    /// of the answer frame. A frame that does not parse is answered with
    /// the error frame of its parse failure.
    pub fn process_bytes<P: GpioCtrl + PwmCtrl + UartCtrl>(&mut self, platf: &mut P, raw: &[u8]) -> (r: Vec<u8>)
        requires
            old(self).wf(),
        ensures
            *final(self) == *old(self),
            match spec_from_slice(raw@) {
                Ok((code, payload)) => exists|rc: Code, rp: Seq<u8>| old(self).answers(code, payload, rc, rp)
                    && r@ == crate::ha::frame_wire(rc, rp),
                Err(e) => r@ == crate::ha::frame_wire(e.status_code(), e.reason().spec_bytes()),
            },
    {
        let answer = match MsgFrame::from_slice(raw) {
            Ok(frame) => self.process_frame(platf, frame),
            Err(e) => e.to_frame(),
        };
        answer.to_bytes()
    }
}

} // verus!
