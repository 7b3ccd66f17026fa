//! Requests and responses of the GPIO interface.
use vstd::prelude::*;
use vstd::slice::slice_to_vec;
use crate::ha::{Code, MsgError, MsgFrame, ArgParser, PAYLOAD_CAPACITY};

verus! {

/// Direction of a pin.
#[derive(Clone, Copy, Debug, PartialEq, Eq, Structural)]
pub enum GpioDir {
    Input,
    Output,
}

impl GpioDir {
    /// The byte that stands for a direction.
    pub open spec fn value(self) -> u8 {
        match self {
            GpioDir::Input => 0x01,
            GpioDir::Output => 0x02,
        }
    }

    /// Decodes a direction; `None` for a byte that stands for none.
    pub fn from_u8(x: u8) -> (r: Option<Self>)
        ensures
            r == gpio_dir_of(x),
    {
        match x {
            0x01 => Some(Self::Input),
            0x02 => Some(Self::Output),
            _ => None,
        }
    }

    /// The byte of this direction.
    pub fn to_u8(&self) -> (r: u8)
        ensures
            r == self.value(),
    {
        match self {
            Self::Input => 0x01,
            Self::Output => 0x02,
        }
    }
}

/// The direction a byte stands for, if any.
pub open spec fn gpio_dir_of(b: u8) -> Option<GpioDir> {
    if b == 0x01 {
        Some(GpioDir::Input)
    } else if b == 0x02 {
        Some(GpioDir::Output)
    } else {
        None
    }
}

/// Level of a pin.
#[derive(Clone, Copy, Debug, PartialEq, Eq, Structural)]
pub enum GpioValue {
    Low,
    High,
}

impl GpioValue {
    /// The byte that stands for a level.
    pub open spec fn value(self) -> u8 {
        match self {
            GpioValue::Low => 0x00,
            GpioValue::High => 0x01,
        }
    }

    /// Decodes a level; `None` for a byte that stands for none.
    pub fn from_u8(x: u8) -> (r: Option<Self>)
        ensures
            r == gpio_value_of(x),
    {
        match x {
            0x00 => Some(Self::Low),
            0x01 => Some(Self::High),
            _ => None,
        }
    }

    /// The byte of this level.
    pub fn to_u8(&self) -> (r: u8)
        ensures
            r == self.value(),
    {
        match self {
            Self::Low => 0x00,
            Self::High => 0x01,
        }
    }
}

/// The level a byte stands for, if any.
pub open spec fn gpio_value_of(b: u8) -> Option<GpioValue> {
    if b == 0x00 {
        Some(GpioValue::Low)
    } else if b == 0x01 {
        Some(GpioValue::High)
    } else {
        None
    }
}

/// A request to the GPIO interface; the first argument is a pin index.
#[derive(Clone, Copy, Debug, PartialEq, Eq, Structural)]
pub enum Request {
    DirSet(u8, GpioDir),
    DirGet(u8),
    Write(u8, GpioValue),
    Read(u8),
}

/// The GPIO request a frame holds, or why it holds none: a pin index byte,
/// then a direction or level byte where the request takes one.
pub open spec fn decode_request(code: Code, payload: Seq<u8>) -> Result<Request, MsgError> {
    match code {
        Code::GpioDirSet => if payload.len() >= 2 {
            match gpio_dir_of(payload[1]) {
                Some(d) => Ok(Request::DirSet(payload[0], d)),
                None => Err(MsgError::InvalidArg),
            }
        } else {
            Err(MsgError::InvalidArg)
        },
        Code::GpioDirGet => if payload.len() >= 1 {
            Ok(Request::DirGet(payload[0]))
        } else {
            Err(MsgError::InvalidArg)
        },
        Code::GpioWrite => if payload.len() >= 2 {
            match gpio_value_of(payload[1]) {
                Some(v) => Ok(Request::Write(payload[0], v)),
                None => Err(MsgError::InvalidArg),
            }
        } else {
            Err(MsgError::InvalidArg)
        },
        Code::GpioRead => if payload.len() >= 1 {
            Ok(Request::Read(payload[0]))
        } else {
            Err(MsgError::InvalidArg)
        },
        _ => Err(MsgError::NotARequest(code)),
    }
}

impl Request {
    /// The opcode this value travels under.
    pub open spec fn code(self) -> Code {
        match self {
            Request::DirSet(_, _) => Code::GpioDirSet,
            Request::DirGet(_) => Code::GpioDirGet,
            Request::Write(_, _) => Code::GpioWrite,
            Request::Read(_) => Code::GpioRead,
        }
    }

    /// The payload this value travels with.
    pub open spec fn payload(self) -> Seq<u8> {
        match self {
            Request::DirSet(i, d) => seq![i, d.value()],
            Request::DirGet(i) => seq![i],
            Request::Write(i, v) => seq![i, v.value()],
            Request::Read(i) => seq![i],
        }
    }

    /// Reads the GPIO request of a frame: `InvalidArg` when an argument is
    /// missing or out of range, `NotARequest` for any other opcode.
    pub fn consume_frame(ff: MsgFrame) -> (r: Result<Self, MsgError>)
        ensures
            r == decode_request(ff.code, ff.payload()),
    {
        let data = ff.payload_slice();
        let mut argp = ArgParser::new(data);
        match ff.code {
            Code::GpioDirSet => {
                let idx = match argp.consume_u8() {
                    Some(x) => x,
                    None => {
                        return Err(MsgError::InvalidArg);
                    },
                };
                match argp.consume_u8() {
                    Some(b) => match GpioDir::from_u8(b) {
                        Some(d) => Ok(Self::DirSet(idx, d)),
                        None => Err(MsgError::InvalidArg),
                    },
                    None => Err(MsgError::InvalidArg),
                }
            },
            Code::GpioDirGet => match argp.consume_u8() {
                Some(idx) => Ok(Self::DirGet(idx)),
                None => Err(MsgError::InvalidArg),
            },
            Code::GpioWrite => {
                let idx = match argp.consume_u8() {
                    Some(x) => x,
                    None => {
                        return Err(MsgError::InvalidArg);
                    },
                };
                match argp.consume_u8() {
                    Some(b) => match GpioValue::from_u8(b) {
                        Some(v) => Ok(Self::Write(idx, v)),
                        None => Err(MsgError::InvalidArg),
                    },
                    None => Err(MsgError::InvalidArg),
                }
            },
            Code::GpioRead => match argp.consume_u8() {
                Some(idx) => Ok(Self::Read(idx)),
                None => Err(MsgError::InvalidArg),
            },
            _ => Err(MsgError::NotARequest(ff.code)),
        }
    }

    /// The frame of a request.
    pub fn to_frame(&self) -> (r: MsgFrame)
        ensures
            r.code == self.code(),
            r.payload() == self.payload(),
    {
        match self {
            Self::DirSet(i, d) => {
                let b: [u8; 2] = [*i, d.to_u8()];
                assert(b@ =~= self.payload());
                MsgFrame::new(Code::GpioDirSet, b.as_slice())
            },
            Self::DirGet(i) => {
                let b: [u8; 1] = [*i];
                assert(b@ =~= self.payload());
                MsgFrame::new(Code::GpioDirGet, b.as_slice())
            },
            Self::Write(i, v) => {
                let b: [u8; 2] = [*i, v.to_u8()];
                assert(b@ =~= self.payload());
                MsgFrame::new(Code::GpioWrite, b.as_slice())
            },
            Self::Read(i) => {
                let b: [u8; 1] = [*i];
                assert(b@ =~= self.payload());
                MsgFrame::new(Code::GpioRead, b.as_slice())
            },
        }
    }
}

/// Decoding the frame of any GPIO request gives that request back.
pub proof fn lemma_request_round_trip(r: Request)
    ensures
        decode_request(r.code(), r.payload()) == Ok::<Request, MsgError>(r),
{
}

/// An answer of the GPIO interface.
#[derive(Debug)]
pub enum Response {
    Good,
    GpioValue(u8, GpioValue),
    GpioDir(u8, GpioDir),
    ErrInvalidArgs,
    /// A failure, with a short text that explains it.
    ErrGeneric(Vec<u8>),
}

/// A GPIO response with its text seen as a sequence.
pub enum ResponseView {
    Good,
    GpioValue(u8, GpioValue),
    GpioDir(u8, GpioDir),
    ErrInvalidArgs,
    ErrGeneric(Seq<u8>),
}

impl View for Response {
    type V = ResponseView;

    open spec fn view(&self) -> ResponseView {
        match self {
            Response::Good => ResponseView::Good,
            Response::GpioValue(i, v) => ResponseView::GpioValue(*i, *v),
            Response::GpioDir(i, d) => ResponseView::GpioDir(*i, *d),
            Response::ErrInvalidArgs => ResponseView::ErrInvalidArgs,
            Response::ErrGeneric(t) => ResponseView::ErrGeneric(t@),
        }
    }
}

impl ResponseView {
    /// Whether the response fits in a frame.
    pub open spec fn wf(self) -> bool {
        match self {
            ResponseView::ErrGeneric(t) => t.len() <= PAYLOAD_CAPACITY,
            _ => true,
        }
    }

    /// The opcode this value travels under.
    pub open spec fn code(self) -> Code {
        match self {
            ResponseView::Good => Code::Good,
            ResponseView::GpioValue(_, _) => Code::GpioValue,
            ResponseView::GpioDir(_, _) => Code::GpioDir,
            ResponseView::ErrInvalidArgs => Code::ErrInvalidArgs,
            ResponseView::ErrGeneric(_) => Code::ErrGeneric,
        }
    }

    /// The payload this value travels with.
    pub open spec fn payload(self) -> Seq<u8> {
        match self {
            ResponseView::Good => Seq::empty(),
            ResponseView::GpioValue(i, v) => seq![i, v.value()],
            ResponseView::GpioDir(i, d) => seq![i, d.value()],
            ResponseView::ErrInvalidArgs => Seq::empty(),
            ResponseView::ErrGeneric(t) => t,
        }
    }
}

/// The GPIO response a frame holds, or why it holds none.
pub open spec fn decode_response(code: Code, payload: Seq<u8>) -> Result<ResponseView, MsgError> {
    match code {
        Code::Good => Ok(ResponseView::Good),
        Code::GpioValue => if payload.len() >= 2 {
            match gpio_value_of(payload[1]) {
                Some(v) => Ok(ResponseView::GpioValue(payload[0], v)),
                None => Err(MsgError::InvalidArg),
            }
        } else {
            Err(MsgError::InvalidArg)
        },
        Code::GpioDir => if payload.len() >= 2 {
            match gpio_dir_of(payload[1]) {
                Some(d) => Ok(ResponseView::GpioDir(payload[0], d)),
                None => Err(MsgError::InvalidArg),
            }
        } else {
            Err(MsgError::InvalidArg)
        },
        Code::ErrInvalidArgs => Ok(ResponseView::ErrInvalidArgs),
        Code::ErrGeneric => Ok(ResponseView::ErrGeneric(payload)),
        _ => Err(MsgError::NotAResponse(code)),
    }
}

/// A parse result seen through the response view.
pub open spec fn response_result_view(r: Result<Response, MsgError>) -> Result<ResponseView, MsgError> {
    match r {
        Ok(x) => Ok(x@),
        Err(e) => Err(e),
    }
}

impl Response {
    /// The frame of a response; total on responses that fit in a frame.
    pub fn to_frame(&self) -> (r: MsgFrame)
        requires
            self@.wf(),
        ensures
            r.code == self@.code(),
            r.payload() == self@.payload(),
    {
        match self {
            Self::Good => {
                let empty: [u8; 0] = [];
                assert(empty@ =~= self@.payload());
                MsgFrame::new(Code::Good, empty.as_slice())
            },
            Self::GpioValue(i, v) => {
                let b: [u8; 2] = [*i, v.to_u8()];
                assert(b@ =~= self@.payload());
                MsgFrame::new(Code::GpioValue, b.as_slice())
            },
            Self::GpioDir(i, d) => {
                let b: [u8; 2] = [*i, d.to_u8()];
                assert(b@ =~= self@.payload());
                MsgFrame::new(Code::GpioDir, b.as_slice())
            },
            Self::ErrInvalidArgs => {
                let empty: [u8; 0] = [];
                assert(empty@ =~= self@.payload());
                MsgFrame::new(Code::ErrInvalidArgs, empty.as_slice())
            },
            Self::ErrGeneric(reason) => MsgFrame::new(Code::ErrGeneric, reason.as_slice()),
        }
    }

    /// Reads the GPIO response of a frame: `InvalidArg` when an argument is
    /// missing or out of range, `NotAResponse` for any other opcode.
    pub fn from_frame(ff: &MsgFrame) -> (r: Result<Self, MsgError>)
        ensures
            response_result_view(r) == decode_response(ff.code, ff.payload()),
    {
        let data = ff.payload_slice();
        let mut argp = ArgParser::new(data);
        match ff.code {
            Code::Good => Ok(Self::Good),
            Code::GpioValue => {
                let idx = match argp.consume_u8() {
                    Some(x) => x,
                    None => {
                        return Err(MsgError::InvalidArg);
                    },
                };
                match argp.consume_u8() {
                    Some(b) => match GpioValue::from_u8(b) {
                        Some(v) => Ok(Self::GpioValue(idx, v)),
                        None => Err(MsgError::InvalidArg),
                    },
                    None => Err(MsgError::InvalidArg),
                }
            },
            Code::GpioDir => {
                let idx = match argp.consume_u8() {
                    Some(x) => x,
                    None => {
                        return Err(MsgError::InvalidArg);
                    },
                };
                match argp.consume_u8() {
                    Some(b) => match GpioDir::from_u8(b) {
                        Some(d) => Ok(Self::GpioDir(idx, d)),
                        None => Err(MsgError::InvalidArg),
                    },
                    None => Err(MsgError::InvalidArg),
                }
            },
            Code::ErrInvalidArgs => Ok(Self::ErrInvalidArgs),
            Code::ErrGeneric => Ok(Self::ErrGeneric(slice_to_vec(data))),
            _ => Err(MsgError::NotAResponse(ff.code)),
        }
    }
}

/// Decoding the frame of any GPIO response that fits gives that response back.
pub proof fn lemma_response_round_trip(r: ResponseView)
    requires
        r.wf(),
    ensures
        decode_response(r.code(), r.payload()) == Ok::<ResponseView, MsgError>(r),
{
}

} // verus!
