//! Requests and responses of the PWM interface.
//!
//! Frequencies (hertz) and duty cycles (percent) travel as big-endian
//! IEEE-754 single-precision numbers; here they are kept as their bit
//! patterns.
use vstd::prelude::*;
use vstd::slice::slice_to_vec;
use crate::ha::{
    Code, MsgError, MsgFrame, ArgParser, PAYLOAD_CAPACITY, be_u32, be_bytes_u32,
    lemma_be_u32_bytes, u32_to_be,
};

verus! {

/// A request to the PWM interface; the first argument is a channel index.
#[derive(Clone, Copy, Debug, PartialEq, Eq, Structural)]
pub enum Request {
    Enable(u8),
    Disable(u8),
    SetFrequency(u8, u32),
    GetFrequency(u8),
    SetDutyCycle(u8, u32),
    GetDutycycle(u8),
}

/// The channel byte and the big-endian value that follow it, when present.
pub open spec fn channel_value(payload: Seq<u8>) -> Option<(u8, u32)> {
    if payload.len() >= 5 {
        Some((payload[0], be_u32(payload[1], payload[2], payload[3], payload[4])))
    } else {
        None
    }
}

/// The PWM request a frame holds, or why it holds none: a channel byte,
/// then a four-byte value where the request takes one.
pub open spec fn decode_request(code: Code, payload: Seq<u8>) -> Result<Request, MsgError> {
    match code {
        Code::PwmStart => if payload.len() >= 1 { Ok(Request::Enable(payload[0])) } else { Err(MsgError::InvalidArg) },
        Code::PwmStop => if payload.len() >= 1 { Ok(Request::Disable(payload[0])) } else { Err(MsgError::InvalidArg) },
        Code::SetFrequency => match channel_value(payload) {
            Some((c, v)) => Ok(Request::SetFrequency(c, v)),
            None => Err(MsgError::InvalidArg),
        },
        Code::GetFrequency => if payload.len() >= 1 { Ok(Request::GetFrequency(payload[0])) } else { Err(MsgError::InvalidArg) },
        Code::SetDutyCycle => match channel_value(payload) {
            Some((c, v)) => Ok(Request::SetDutyCycle(c, v)),
            None => Err(MsgError::InvalidArg),
        },
        Code::GetDutycycle => if payload.len() >= 1 { Ok(Request::GetDutycycle(payload[0])) } else { Err(MsgError::InvalidArg) },
        _ => Err(MsgError::NotARequest(code)),
    }
}

fn channel_frame(code: Code, channel: u8) -> (r: MsgFrame)
    ensures
        r.code == code,
        r.payload() == seq![channel],
{
    let b: [u8; 1] = [channel];
    assert(b@ =~= seq![channel]);
    MsgFrame::new(code, b.as_slice())
}

fn channel_value_frame(code: Code, channel: u8, value: u32) -> (r: MsgFrame)
    ensures
        r.code == code,
        r.payload() == seq![channel] + be_bytes_u32(value),
{
    let v = u32_to_be(value);
    let b: [u8; 5] = [channel, v[0], v[1], v[2], v[3]];
    assert(b@ =~= seq![channel] + be_bytes_u32(value));
    MsgFrame::new(code, b.as_slice())
}

fn consume_channel_value(argp: &mut ArgParser) -> (r: Option<(u8, u32)>)
    requires
        old(argp).wf(),
        old(argp).pos() == 0,
    ensures
        r == channel_value(old(argp).bytes()),
{
    let c = match argp.consume_u8() {
        Some(x) => x,
        None => {
            return None;
        },
    };
    match argp.consume_u32() {
        Some(v) => Some((c, v)),
        None => None,
    }
}

impl Request {
    /// The opcode this value travels under.
    pub open spec fn code(self) -> Code {
        match self {
            Request::Enable(_) => Code::PwmStart,
            Request::Disable(_) => Code::PwmStop,
            Request::SetFrequency(_, _) => Code::SetFrequency,
            Request::GetFrequency(_) => Code::GetFrequency,
            Request::SetDutyCycle(_, _) => Code::SetDutyCycle,
            Request::GetDutycycle(_) => Code::GetDutycycle,
        }
    }

    /// The payload this value travels with.
    pub open spec fn payload(self) -> Seq<u8> {
        match self {
            Request::Enable(c) => seq![c],
            Request::Disable(c) => seq![c],
            Request::SetFrequency(c, v) => seq![c] + be_bytes_u32(v),
            Request::GetFrequency(c) => seq![c],
            Request::SetDutyCycle(c, v) => seq![c] + be_bytes_u32(v),
            Request::GetDutycycle(c) => seq![c],
        }
    }

    /// Reads the PWM request of a frame: `InvalidArg` when an argument is
    /// missing, `NotARequest` for any other opcode.
    pub fn consume_frame(ff: MsgFrame) -> (r: Result<Self, MsgError>)
        ensures
            r == decode_request(ff.code, ff.payload()),
    {
        let data = ff.payload_slice();
        let mut argp = ArgParser::new(data);
        match ff.code {
            Code::PwmStart => match argp.consume_u8() {
                Some(c) => Ok(Self::Enable(c)),
                None => Err(MsgError::InvalidArg),
            },
            Code::PwmStop => match argp.consume_u8() {
                Some(c) => Ok(Self::Disable(c)),
                None => Err(MsgError::InvalidArg),
            },
            Code::SetFrequency => match consume_channel_value(&mut argp) {
                Some((c, v)) => Ok(Self::SetFrequency(c, v)),
                None => Err(MsgError::InvalidArg),
            },
            Code::GetFrequency => match argp.consume_u8() {
                Some(c) => Ok(Self::GetFrequency(c)),
                None => Err(MsgError::InvalidArg),
            },
            Code::SetDutyCycle => match consume_channel_value(&mut argp) {
                Some((c, v)) => Ok(Self::SetDutyCycle(c, v)),
                None => Err(MsgError::InvalidArg),
            },
            Code::GetDutycycle => match argp.consume_u8() {
                Some(c) => Ok(Self::GetDutycycle(c)),
                None => Err(MsgError::InvalidArg),
            },
            _ => Err(MsgError::NotARequest(ff.code)),
        }
    }

    /// The frame of a request.
    pub fn to_frame(&self) -> (r: MsgFrame)
        ensures
            r.code == self.code(),
            r.payload() == self.payload(),
    {
        match self {
            Self::Enable(c) => channel_frame(Code::PwmStart, *c),
            Self::Disable(c) => channel_frame(Code::PwmStop, *c),
            Self::SetFrequency(c, v) => channel_value_frame(Code::SetFrequency, *c, *v),
            Self::GetFrequency(c) => channel_frame(Code::GetFrequency, *c),
            Self::SetDutyCycle(c, v) => channel_value_frame(Code::SetDutyCycle, *c, *v),
            Self::GetDutycycle(c) => channel_frame(Code::GetDutycycle, *c),
        }
    }
}

/// Decoding the frame of any PWM request gives that request back.
pub proof fn lemma_request_round_trip(r: Request)
    ensures
        decode_request(r.code(), r.payload()) == Ok::<Request, MsgError>(r),
{
    match r {
        Request::SetFrequency(_, v) => lemma_be_u32_bytes(v),
        Request::SetDutyCycle(_, v) => lemma_be_u32_bytes(v),
        _ => {},
    }
}

/// An answer of the PWM interface.
#[derive(Debug)]
pub enum Response {
    Good,
    Frequency(u8, u32),
    DutyCycle(u8, u32),
    ErrInvalidArgs,
    /// A failure, with a short text that explains it.
    ErrGeneric(Vec<u8>),
}

/// A PWM response with its text seen as a sequence.
pub enum ResponseView {
    Good,
    Frequency(u8, u32),
    DutyCycle(u8, u32),
    ErrInvalidArgs,
    ErrGeneric(Seq<u8>),
}

impl View for Response {
    type V = ResponseView;

    open spec fn view(&self) -> ResponseView {
        match self {
            Response::Good => ResponseView::Good,
            Response::Frequency(c, v) => ResponseView::Frequency(*c, *v),
            Response::DutyCycle(c, v) => ResponseView::DutyCycle(*c, *v),
            Response::ErrInvalidArgs => ResponseView::ErrInvalidArgs,
            Response::ErrGeneric(t) => ResponseView::ErrGeneric(t@),
        }
    }
}

impl ResponseView {
    /// Whether the response fits in a frame.
    pub open spec fn wf(self) -> bool {
        match self {
            ResponseView::ErrGeneric(t) => t.len() <= PAYLOAD_CAPACITY,
            _ => true,
        }
    }

    /// The opcode this value travels under.
    pub open spec fn code(self) -> Code {
        match self {
            ResponseView::Good => Code::Good,
            ResponseView::Frequency(_, _) => Code::Frequency,
            ResponseView::DutyCycle(_, _) => Code::DutyCycle,
            ResponseView::ErrInvalidArgs => Code::ErrInvalidArgs,
            ResponseView::ErrGeneric(_) => Code::ErrGeneric,
        }
    }

    /// The payload this value travels with.
    pub open spec fn payload(self) -> Seq<u8> {
        match self {
            ResponseView::Good => Seq::empty(),
            ResponseView::Frequency(c, v) => seq![c] + be_bytes_u32(v),
            ResponseView::DutyCycle(c, v) => seq![c] + be_bytes_u32(v),
            ResponseView::ErrInvalidArgs => Seq::empty(),
            ResponseView::ErrGeneric(t) => t,
        }
    }
}

/// The PWM response a frame holds, or why it holds none.
pub open spec fn decode_response(code: Code, payload: Seq<u8>) -> Result<ResponseView, MsgError> {
    match code {
        Code::Good => Ok(ResponseView::Good),
        Code::Frequency => match channel_value(payload) {
            Some((c, v)) => Ok(ResponseView::Frequency(c, v)),
            None => Err(MsgError::InvalidArg),
        },
        Code::DutyCycle => match channel_value(payload) {
            Some((c, v)) => Ok(ResponseView::DutyCycle(c, v)),
            None => Err(MsgError::InvalidArg),
        },
        Code::ErrInvalidArgs => Ok(ResponseView::ErrInvalidArgs),
        Code::ErrGeneric => Ok(ResponseView::ErrGeneric(payload)),
        _ => Err(MsgError::NotAResponse(code)),
    }
}

/// A parse result seen through the response view.
pub open spec fn response_result_view(r: Result<Response, MsgError>) -> Result<ResponseView, MsgError> {
    match r {
        Ok(x) => Ok(x@),
        Err(e) => Err(e),
    }
}

impl Response {
    /// The frame of a response; total on responses that fit in a frame.
    pub fn to_frame(&self) -> (r: MsgFrame)
        requires
            self@.wf(),
        ensures
            r.code == self@.code(),
            r.payload() == self@.payload(),
    {
        match self {
            Self::Good => {
                let empty: [u8; 0] = [];
                assert(empty@ =~= self@.payload());
                MsgFrame::new(Code::Good, empty.as_slice())
            },
            Self::Frequency(c, v) => channel_value_frame(Code::Frequency, *c, *v),
            Self::DutyCycle(c, v) => channel_value_frame(Code::DutyCycle, *c, *v),
            Self::ErrInvalidArgs => {
                let empty: [u8; 0] = [];
                assert(empty@ =~= self@.payload());
                MsgFrame::new(Code::ErrInvalidArgs, empty.as_slice())
            },
            Self::ErrGeneric(reason) => MsgFrame::new(Code::ErrGeneric, reason.as_slice()),
        }
    }

    /// Reads the PWM response of a frame: `InvalidArg` when an argument is
    /// missing, `NotAResponse` for any other opcode.
    pub fn from_frame(ff: &MsgFrame) -> (r: Result<Self, MsgError>)
        ensures
            response_result_view(r) == decode_response(ff.code, ff.payload()),
    {
        let data = ff.payload_slice();
        let mut argp = ArgParser::new(data);
        match ff.code {
            Code::Good => Ok(Self::Good),
            Code::Frequency => match consume_channel_value(&mut argp) {
                Some((c, v)) => Ok(Self::Frequency(c, v)),
                None => Err(MsgError::InvalidArg),
            },
            Code::DutyCycle => match consume_channel_value(&mut argp) {
                Some((c, v)) => Ok(Self::DutyCycle(c, v)),
                None => Err(MsgError::InvalidArg),
            },
            Code::ErrInvalidArgs => Ok(Self::ErrInvalidArgs),
            Code::ErrGeneric => Ok(Self::ErrGeneric(slice_to_vec(data))),
            _ => Err(MsgError::NotAResponse(ff.code)),
        }
    }
}

/// Decoding the frame of any PWM response that fits gives that response back.
pub proof fn lemma_response_round_trip(r: ResponseView)
    requires
        r.wf(),
    ensures
        decode_response(r.code(), r.payload()) == Ok::<ResponseView, MsgError>(r),
{
    match r {
        ResponseView::Frequency(_, v) => lemma_be_u32_bytes(v),
        ResponseView::DutyCycle(_, v) => lemma_be_u32_bytes(v),
        _ => {},
    }
}

} // verus!
