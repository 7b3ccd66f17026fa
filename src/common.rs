//! Requests and responses that every interface answers alike.
use vstd::prelude::*;
use vstd::slice::slice_to_vec;
use crate::ha::{Code, ItfType, MsgError, MsgFrame, ArgParser, PAYLOAD_CAPACITY};

verus! {

/// A request common to all interfaces.
#[derive(Clone, Copy, Debug, PartialEq, Eq, Structural)]
pub enum Request {
    Ping,
    ItfType,
    Version,
    IdGet,
}

/// The generic request a frame holds, or why it holds none.
pub open spec fn decode_request(code: Code, payload: Seq<u8>) -> Result<Request, MsgError> {
    match code {
        Code::Ping => Ok(Request::Ping),
        Code::ItfType => Ok(Request::ItfType),
        Code::Version => Ok(Request::Version),
        Code::IdGet => Ok(Request::IdGet),
        _ => Err(MsgError::NotARequest(code)),
    }
}

impl Request {
    /// The opcode of a request; generic requests carry no arguments.
    pub open spec fn code(self) -> Code {
        match self {
            Request::Ping => Code::Ping,
            Request::ItfType => Code::ItfType,
            Request::Version => Code::Version,
            Request::IdGet => Code::IdGet,
        }
    }

    /// Reads the generic request of a frame; `NotARequest` for any other opcode.
    pub fn consume_frame(ff: MsgFrame) -> (r: Result<Self, MsgError>)
        ensures
            r == decode_request(ff.code, ff.payload()),
    {
        match ff.code {
            Code::Ping => Ok(Self::Ping),
            Code::ItfType => Ok(Self::ItfType),
            Code::Version => Ok(Self::Version),
            Code::IdGet => Ok(Self::IdGet),
            _ => Err(MsgError::NotARequest(ff.code)),
        }
    }

    /// The frame of a request: its opcode and an empty payload.
    pub fn to_frame(&self) -> (r: MsgFrame)
        ensures
            r.code == self.code(),
            r.payload() == Seq::<u8>::empty(),
    {
        let code = match self {
            Self::Ping => Code::Ping,
            Self::ItfType => Code::ItfType,
            Self::Version => Code::Version,
            Self::IdGet => Code::IdGet,
        };
        let empty: [u8; 0] = [];
        MsgFrame::new(code, empty.as_slice())
    }
}

/// Decoding the frame of any generic request gives that request back.
pub proof fn lemma_request_round_trip(r: Request)
    ensures
        decode_request(r.code(), Seq::empty()) == Ok::<Request, MsgError>(r),
{
}

/// An answer to a generic request.
#[derive(Debug)]
pub enum Response {
    Good,
    VersionResp(Vec<u8>),
    ItfTypeResp(ItfType),
    IdResp(Vec<u8>),
}

/// A generic response with its byte fields seen as sequences.
pub enum ResponseView {
    Good,
    VersionResp(Seq<u8>),
    ItfTypeResp(ItfType),
    IdResp(Seq<u8>),
}

impl View for Response {
    type V = ResponseView;

    open spec fn view(&self) -> ResponseView {
        match self {
            Response::Good => ResponseView::Good,
            Response::VersionResp(v) => ResponseView::VersionResp(v@),
            Response::ItfTypeResp(t) => ResponseView::ItfTypeResp(*t),
            Response::IdResp(v) => ResponseView::IdResp(v@),
        }
    }
}

impl ResponseView {
    /// Whether the response fits in a frame.
    pub open spec fn wf(self) -> bool {
        match self {
            ResponseView::VersionResp(v) => v.len() <= PAYLOAD_CAPACITY,
            ResponseView::IdResp(v) => v.len() <= PAYLOAD_CAPACITY,
            _ => true,
        }
    }

    /// The opcode of a response.
    pub open spec fn code(self) -> Code {
        match self {
            ResponseView::Good => Code::Good,
            ResponseView::VersionResp(_) => Code::VersionResp,
            ResponseView::ItfTypeResp(_) => Code::ItfTypeResp,
            ResponseView::IdResp(_) => Code::IdResp,
        }
    }

    /// The payload of a response: nothing for `Good`, the text or identifier
    /// bytes as they are, one byte for an interface kind.
    pub open spec fn payload(self) -> Seq<u8> {
        match self {
            ResponseView::Good => Seq::empty(),
            ResponseView::VersionResp(v) => v,
            ResponseView::ItfTypeResp(t) => seq![t.value()],
            ResponseView::IdResp(v) => v,
        }
    }
}

/// The interface kind a one-byte argument names, if any.
pub open spec fn itf_type_of(b: u8) -> Option<ItfType> {
    if exists|t: ItfType| t.value() == b {
        Some(choose|t: ItfType| t.value() == b)
    } else {
        None
    }
}

/// The generic response a frame holds, or why it holds none.
pub open spec fn decode_response(code: Code, payload: Seq<u8>) -> Result<ResponseView, MsgError> {
    match code {
        Code::Good => Ok(ResponseView::Good),
        Code::VersionResp => Ok(ResponseView::VersionResp(payload)),
        Code::ItfTypeResp => if payload.len() >= 1 {
            match itf_type_of(payload[0]) {
                Some(t) => Ok(ResponseView::ItfTypeResp(t)),
                None => Err(MsgError::InvalidArg),
            }
        } else {
            Err(MsgError::InvalidArg)
        },
        Code::IdResp => Ok(ResponseView::IdResp(payload)),
        _ => Err(MsgError::NotAResponse(code)),
    }
}

/// A parse result seen through the response view.
pub open spec fn response_result_view(r: Result<Response, MsgError>) -> Result<ResponseView, MsgError> {
    match r {
        Ok(x) => Ok(x@),
        Err(e) => Err(e),
    }
}

impl Response {
    /// The frame of a response; total on responses that fit in a frame.
    pub fn to_frame(&self) -> (r: MsgFrame)
        requires
            self@.wf(),
        ensures
            r.code == self@.code(),
            r.payload() == self@.payload(),
    {
        match self {
            Self::Good => {
                let empty: [u8; 0] = [];
                MsgFrame::new(Code::Good, empty.as_slice())
            },
            Self::VersionResp(version) => MsgFrame::new(Code::VersionResp, version.as_slice()),
            Self::ItfTypeResp(itf_type) => {
                let b: [u8; 1] = [itf_type.to_u8()];
                assert(b@ =~= seq![itf_type.value()]);
                MsgFrame::new(Code::ItfTypeResp, b.as_slice())
            },
            Self::IdResp(id) => MsgFrame::new(Code::IdResp, id.as_slice()),
        }
    }

    /// Reads the generic response of a frame; `InvalidArg` for a missing or
    /// unknown interface kind, `NotAResponse` for any other opcode.
    pub fn from_frame(ff: &MsgFrame) -> (r: Result<Self, MsgError>)
        ensures
            response_result_view(r) == decode_response(ff.code, ff.payload()),
    {
        let data = ff.payload_slice();
        match ff.code {
            Code::Good => Ok(Self::Good),
            Code::VersionResp => Ok(Self::VersionResp(slice_to_vec(data))),
            Code::ItfTypeResp => {
                let mut argp = ArgParser::new(data);
                match argp.consume_u8() {
                    Some(b) => match ItfType::from_u8(b) {
                        Some(t) => {
                            proof { lemma_itf_type_of(t); }
                            Ok(Self::ItfTypeResp(t))
                        },
                        None => Err(MsgError::InvalidArg),
                    },
                    None => Err(MsgError::InvalidArg),
                }
            },
            Code::IdResp => Ok(Self::IdResp(slice_to_vec(data))),
            _ => Err(MsgError::NotAResponse(ff.code)),
        }
    }
}

/// Every interface kind is found again from its byte.
pub proof fn lemma_itf_type_of(t: ItfType)
    ensures
        itf_type_of(t.value()) == Some(t),
{
    let u = choose|u: ItfType| u.value() == t.value();
}

/// Decoding the frame of any generic response that fits gives that response back.
pub proof fn lemma_response_round_trip(r: ResponseView)
    requires
        r.wf(),
    ensures
        decode_response(r.code(), r.payload()) == Ok::<ResponseView, MsgError>(r),
{
    if let ResponseView::ItfTypeResp(t) = r {
        lemma_itf_type_of(t);
    }
}

} // verus!
