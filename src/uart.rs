//! Requests and responses of the UART interface.
use vstd::prelude::*;
use vstd::slice::slice_to_vec;
use crate::ha::{
    Code, MsgError, MsgFrame, ArgParser, PAYLOAD_CAPACITY, be_u32, be_bytes_u32,
    lemma_be_u32_bytes, u32_to_be,
};

verus! {

/// Whether hardware flow control is on.
#[derive(Clone, Copy, Debug, PartialEq, Eq, Structural)]
pub enum HWFlowControlState {
    Disable,
    Enable,
}

impl HWFlowControlState {
    /// The byte that stands for a state.
    pub open spec fn value(self) -> u8 {
        match self {
            HWFlowControlState::Disable => 0,
            HWFlowControlState::Enable => 1,
        }
    }

    /// Decodes a state; `None` for a byte other than 0 or 1.
    pub fn from_u8(x: u8) -> (r: Option<Self>)
        ensures
            r == flow_control_of(x),
    {
        match x {
            0 => Some(Self::Disable),
            1 => Some(Self::Enable),
            _ => None,
        }
    }

    /// The byte of this state.
    pub fn to_u8(&self) -> (r: u8)
        ensures
            r == self.value(),
    {
        match self {
            Self::Disable => 0,
            Self::Enable => 1,
        }
    }
}

/// The flow control state a byte stands for, if any.
pub open spec fn flow_control_of(b: u8) -> Option<HWFlowControlState> {
    if b == 0 {
        Some(HWFlowControlState::Disable)
    } else if b == 1 {
        Some(HWFlowControlState::Enable)
    } else {
        None
    }
}

/// A request to the UART interface.
#[derive(Debug)]
pub enum Request {
    /// Bytes to transmit.
    DataTX(Vec<u8>),
    DataRXGet,
    BaudSet(u32),
    BaudGet,
    SetParity(u8),
    SetStopBit(u8),
    SetDataSz(u8),
    HWFlowControl(HWFlowControlState),
    ComErrStart,
    ComErrSize,
}

/// A UART request with its bytes seen as a sequence.
pub enum RequestView {
    DataTX(Seq<u8>),
    DataRXGet,
    BaudSet(u32),
    BaudGet,
    SetParity(u8),
    SetStopBit(u8),
    SetDataSz(u8),
    HWFlowControl(HWFlowControlState),
    ComErrStart,
    ComErrSize,
}

impl View for Request {
    type V = RequestView;

    open spec fn view(&self) -> RequestView {
        match self {
            Request::DataTX(d) => RequestView::DataTX(d@),
            Request::DataRXGet => RequestView::DataRXGet,
            Request::BaudSet(b) => RequestView::BaudSet(*b),
            Request::BaudGet => RequestView::BaudGet,
            Request::SetParity(p) => RequestView::SetParity(*p),
            Request::SetStopBit(s) => RequestView::SetStopBit(*s),
            Request::SetDataSz(s) => RequestView::SetDataSz(*s),
            Request::HWFlowControl(f) => RequestView::HWFlowControl(*f),
            Request::ComErrStart => RequestView::ComErrStart,
            Request::ComErrSize => RequestView::ComErrSize,
        }
    }
}

impl RequestView {
    /// Whether the request fits in a frame.
    pub open spec fn wf(self) -> bool {
        match self {
            RequestView::DataTX(d) => d.len() <= PAYLOAD_CAPACITY,
            _ => true,
        }
    }

    /// The opcode this value travels under.
    pub open spec fn code(self) -> Code {
        match self {
            RequestView::DataTX(_) => Code::DataTX,
            RequestView::DataRXGet => Code::DataRXGet,
            RequestView::BaudSet(_) => Code::BaudSet,
            RequestView::BaudGet => Code::BaudGet,
            RequestView::SetParity(_) => Code::SetParity,
            RequestView::SetStopBit(_) => Code::SetStopBit,
            RequestView::SetDataSz(_) => Code::SetDataSz,
            RequestView::HWFlowControl(_) => Code::HWFlowControl,
            RequestView::ComErrStart => Code::ComErrStart,
            RequestView::ComErrSize => Code::ComErrSize,
        }
    }

    /// The payload: the bytes to send as they are, a big-endian rate, one
    /// setting byte, or nothing.
    pub open spec fn payload(self) -> Seq<u8> {
        match self {
            RequestView::DataTX(d) => d,
            RequestView::BaudSet(b) => be_bytes_u32(b),
            RequestView::SetParity(p) => seq![p],
            RequestView::SetStopBit(s) => seq![s],
            RequestView::SetDataSz(s) => seq![s],
            RequestView::HWFlowControl(f) => seq![f.value()],
            _ => Seq::empty(),
        }
    }
}

/// The UART request a frame holds, or why it holds none.
pub open spec fn decode_request(code: Code, payload: Seq<u8>) -> Result<RequestView, MsgError> {
    match code {
        Code::DataTX => Ok(RequestView::DataTX(payload)),
        Code::DataRXGet => Ok(RequestView::DataRXGet),
        Code::BaudSet => if payload.len() >= 4 {
            Ok(RequestView::BaudSet(be_u32(payload[0], payload[1], payload[2], payload[3])))
        } else {
            Err(MsgError::InvalidArg)
        },
        Code::BaudGet => Ok(RequestView::BaudGet),
        Code::SetParity => if payload.len() >= 1 { Ok(RequestView::SetParity(payload[0])) } else { Err(MsgError::InvalidArg) },
        Code::SetStopBit => if payload.len() >= 1 { Ok(RequestView::SetStopBit(payload[0])) } else { Err(MsgError::InvalidArg) },
        Code::SetDataSz => if payload.len() >= 1 { Ok(RequestView::SetDataSz(payload[0])) } else { Err(MsgError::InvalidArg) },
        Code::HWFlowControl => if payload.len() >= 1 {
            match flow_control_of(payload[0]) {
                Some(f) => Ok(RequestView::HWFlowControl(f)),
                None => Err(MsgError::InvalidArg),
            }
        } else {
            Err(MsgError::InvalidArg)
        },
        Code::ComErrStart => Ok(RequestView::ComErrStart),
        Code::ComErrSize => Ok(RequestView::ComErrSize),
        _ => Err(MsgError::NotARequest(code)),
    }
}

/// A parse result seen through the request view.
pub open spec fn request_result_view(r: Result<Request, MsgError>) -> Result<RequestView, MsgError> {
    match r {
        Ok(x) => Ok(x@),
        Err(e) => Err(e),
    }
}

fn byte_frame(code: Code, b: u8) -> (r: MsgFrame)
    ensures
        r.code == code,
        r.payload() == seq![b],
{
    let a: [u8; 1] = [b];
    assert(a@ =~= seq![b]);
    MsgFrame::new(code, a.as_slice())
}

fn empty_frame(code: Code) -> (r: MsgFrame)
    ensures
        r.code == code,
        r.payload() == Seq::<u8>::empty(),
{
    let a: [u8; 0] = [];
    assert(a@ =~= Seq::<u8>::empty());
    MsgFrame::new(code, a.as_slice())
}

fn value_frame(code: Code, v: u32) -> (r: MsgFrame)
    ensures
        r.code == code,
        r.payload() == be_bytes_u32(v),
{
    let a = u32_to_be(v);
    MsgFrame::new(code, a.as_slice())
}

impl Request {
    /// Reads the UART request of a frame: `InvalidArg` when an argument is
    /// missing or out of range, `NotARequest` for any other opcode.
    pub fn consume_frame(ff: MsgFrame) -> (r: Result<Self, MsgError>)
        ensures
            request_result_view(r) == decode_request(ff.code, ff.payload()),
    {
        let data = ff.payload_slice();
        let mut argp = ArgParser::new(data);
        match ff.code {
            Code::DataTX => Ok(Self::DataTX(slice_to_vec(data))),
            Code::DataRXGet => Ok(Self::DataRXGet),
            Code::BaudSet => match argp.consume_u32() {
                Some(b) => Ok(Self::BaudSet(b)),
                None => Err(MsgError::InvalidArg),
            },
            Code::BaudGet => Ok(Self::BaudGet),
            Code::SetParity => match argp.consume_u8() {
                Some(p) => Ok(Self::SetParity(p)),
                None => Err(MsgError::InvalidArg),
            },
            Code::SetStopBit => match argp.consume_u8() {
                Some(s) => Ok(Self::SetStopBit(s)),
                None => Err(MsgError::InvalidArg),
            },
            Code::SetDataSz => match argp.consume_u8() {
                Some(s) => Ok(Self::SetDataSz(s)),
                None => Err(MsgError::InvalidArg),
            },
            Code::HWFlowControl => match argp.consume_u8() {
                Some(x) => match HWFlowControlState::from_u8(x) {
                    Some(f) => Ok(Self::HWFlowControl(f)),
                    None => Err(MsgError::InvalidArg),
                },
                None => Err(MsgError::InvalidArg),
            },
            Code::ComErrStart => Ok(Self::ComErrStart),
            Code::ComErrSize => Ok(Self::ComErrSize),
            _ => Err(MsgError::NotARequest(ff.code)),
        }
    }

    /// The frame of a request; total on requests that fit in a frame.
    pub fn to_frame(&self) -> (r: MsgFrame)
        requires
            self@.wf(),
        ensures
            r.code == self@.code(),
            r.payload() == self@.payload(),
    {
        match self {
            Self::DataTX(d) => MsgFrame::new(Code::DataTX, d.as_slice()),
            Self::DataRXGet => empty_frame(Code::DataRXGet),
            Self::BaudSet(b) => value_frame(Code::BaudSet, *b),
            Self::BaudGet => empty_frame(Code::BaudGet),
            Self::SetParity(p) => byte_frame(Code::SetParity, *p),
            Self::SetStopBit(s) => byte_frame(Code::SetStopBit, *s),
            Self::SetDataSz(s) => byte_frame(Code::SetDataSz, *s),
            Self::HWFlowControl(f) => byte_frame(Code::HWFlowControl, f.to_u8()),
            Self::ComErrStart => empty_frame(Code::ComErrStart),
            Self::ComErrSize => empty_frame(Code::ComErrSize),
        }
    }
}

/// Decoding the frame of any UART request that fits gives that request back.
pub proof fn lemma_request_round_trip(r: RequestView)
    requires
        r.wf(),
    ensures
        decode_request(r.code(), r.payload()) == Ok::<RequestView, MsgError>(r),
{
    if let RequestView::BaudSet(b) = r {
        lemma_be_u32_bytes(b);
    }
}

/// An answer of the UART interface.
#[derive(Debug)]
pub enum Response {
    Good,
    /// Bytes received.
    DataRX(Vec<u8>),
    Baud(u32),
    ErrInvalidArgs,
    /// A failure, with a short text that explains it.
    ErrGeneric(Vec<u8>),
}

/// A UART response with its bytes seen as sequences.
pub enum ResponseView {
    Good,
    DataRX(Seq<u8>),
    Baud(u32),
    ErrInvalidArgs,
    ErrGeneric(Seq<u8>),
}

impl View for Response {
    type V = ResponseView;

    open spec fn view(&self) -> ResponseView {
        match self {
            Response::Good => ResponseView::Good,
            Response::DataRX(d) => ResponseView::DataRX(d@),
            Response::Baud(b) => ResponseView::Baud(*b),
            Response::ErrInvalidArgs => ResponseView::ErrInvalidArgs,
            Response::ErrGeneric(t) => ResponseView::ErrGeneric(t@),
        }
    }
}

impl ResponseView {
    /// Whether the response fits in a frame.
    pub open spec fn wf(self) -> bool {
        match self {
            ResponseView::DataRX(d) => d.len() <= PAYLOAD_CAPACITY,
            ResponseView::ErrGeneric(t) => t.len() <= PAYLOAD_CAPACITY,
            _ => true,
        }
    }

    /// The opcode this value travels under.
    pub open spec fn code(self) -> Code {
        match self {
            ResponseView::Good => Code::Good,
            ResponseView::DataRX(_) => Code::DataRX,
            ResponseView::Baud(_) => Code::Baud,
            ResponseView::ErrInvalidArgs => Code::ErrInvalidArgs,
            ResponseView::ErrGeneric(_) => Code::ErrGeneric,
        }
    }

    /// The payload this value travels with.
    pub open spec fn payload(self) -> Seq<u8> {
        match self {
            ResponseView::Good => Seq::empty(),
            ResponseView::DataRX(d) => d,
            ResponseView::Baud(b) => be_bytes_u32(b),
            ResponseView::ErrInvalidArgs => Seq::empty(),
            ResponseView::ErrGeneric(t) => t,
        }
    }
}

/// The UART response a frame holds, or why it holds none.
pub open spec fn decode_response(code: Code, payload: Seq<u8>) -> Result<ResponseView, MsgError> {
    match code {
        Code::Good => Ok(ResponseView::Good),
        Code::DataRX => Ok(ResponseView::DataRX(payload)),
        Code::Baud => if payload.len() >= 4 {
            Ok(ResponseView::Baud(be_u32(payload[0], payload[1], payload[2], payload[3])))
        } else {
            Err(MsgError::InvalidArg)
        },
        Code::ErrInvalidArgs => Ok(ResponseView::ErrInvalidArgs),
        Code::ErrGeneric => Ok(ResponseView::ErrGeneric(payload)),
        _ => Err(MsgError::NotAResponse(code)),
    }
}

/// A parse result seen through the response view.
pub open spec fn response_result_view(r: Result<Response, MsgError>) -> Result<ResponseView, MsgError> {
    match r {
        Ok(x) => Ok(x@),
        Err(e) => Err(e),
    }
}

impl Response {
    /// The frame of a response; total on responses that fit in a frame.
    pub fn to_frame(&self) -> (r: MsgFrame)
        requires
            self@.wf(),
        ensures
            r.code == self@.code(),
            r.payload() == self@.payload(),
    {
        match self {
            Self::Good => empty_frame(Code::Good),
            Self::DataRX(d) => MsgFrame::new(Code::DataRX, d.as_slice()),
            Self::Baud(b) => value_frame(Code::Baud, *b),
            Self::ErrInvalidArgs => empty_frame(Code::ErrInvalidArgs),
            Self::ErrGeneric(reason) => MsgFrame::new(Code::ErrGeneric, reason.as_slice()),
        }
    }

    /// Reads the UART response of a frame: `InvalidArg` when an argument is
    /// missing, `NotAResponse` for any other opcode.
    pub fn from_frame(ff: &MsgFrame) -> (r: Result<Self, MsgError>)
        ensures
            response_result_view(r) == decode_response(ff.code, ff.payload()),
    {
        let data = ff.payload_slice();
        let mut argp = ArgParser::new(data);
        match ff.code {
            Code::Good => Ok(Self::Good),
            Code::DataRX => Ok(Self::DataRX(slice_to_vec(data))),
            Code::Baud => match argp.consume_u32() {
                Some(b) => Ok(Self::Baud(b)),
                None => Err(MsgError::InvalidArg),
            },
            Code::ErrInvalidArgs => Ok(Self::ErrInvalidArgs),
            Code::ErrGeneric => Ok(Self::ErrGeneric(slice_to_vec(data))),
            _ => Err(MsgError::NotAResponse(ff.code)),
        }
    }
}

/// Decoding the frame of any UART response that fits gives that response back.
pub proof fn lemma_response_round_trip(r: ResponseView)
    requires
        r.wf(),
    ensures
        decode_response(r.code(), r.payload()) == Ok::<ResponseView, MsgError>(r),
{
    if let ResponseView::Baud(b) = r {
        lemma_be_u32_bytes(b);
    }
}

} // verus!
