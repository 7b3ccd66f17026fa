//! Requests of the I2C master interface.
use vstd::prelude::*;
use crate::ha::{Code, MsgError, MsgFrame, ArgParser};

verus! {

/// Most data bytes one I2C request carries.
pub const I2C_DATA_CAPACITY: usize = 32;

/// A request to the I2C master: a device address and data bytes.
#[derive(Debug)]
pub enum Request {
    Write(u8, Vec<u8>),
    Read(u8, Vec<u8>),
}

/// An I2C request with its data seen as a sequence.
pub enum RequestView {
    Write(u8, Seq<u8>),
    Read(u8, Seq<u8>),
}

impl View for Request {
    type V = RequestView;

    open spec fn view(&self) -> RequestView {
        match self {
            Request::Write(a, d) => RequestView::Write(*a, d@),
            Request::Read(a, d) => RequestView::Read(*a, d@),
        }
    }
}

impl RequestView {
    /// Whether the data fits in a request.
    pub open spec fn wf(self) -> bool {
        match self {
            RequestView::Write(_, d) => d.len() <= I2C_DATA_CAPACITY,
            RequestView::Read(_, d) => d.len() <= I2C_DATA_CAPACITY,
        }
    }

    /// The opcode this value travels under.
    pub open spec fn code(self) -> Code {
        match self {
            RequestView::Write(_, _) => Code::I2cWrite,
            RequestView::Read(_, _) => Code::I2cRead,
        }
    }

    /// The payload: address, data length, then the data.
    pub open spec fn payload(self) -> Seq<u8> {
        match self {
            RequestView::Write(a, d) => seq![a, d.len() as u8] + d,
            RequestView::Read(a, d) => seq![a, d.len() as u8] + d,
        }
    }
}

/// The address and data of an I2C payload: an address byte, a length byte,
/// then that many data bytes, at most `I2C_DATA_CAPACITY`.
pub open spec fn address_data(payload: Seq<u8>) -> Option<(u8, Seq<u8>)> {
    if payload.len() >= 2 && payload[1] as int <= I2C_DATA_CAPACITY && payload.len() >= 2 + payload[1] as int {
        Some((payload[0], payload.subrange(2, 2 + payload[1] as int)))
    } else {
        None
    }
}

/// The I2C request a frame holds, or why it holds none.
pub open spec fn decode_request(code: Code, payload: Seq<u8>) -> Result<RequestView, MsgError> {
    match code {
        Code::I2cWrite => match address_data(payload) {
            Some((a, d)) => Ok(RequestView::Write(a, d)),
            None => Err(MsgError::InvalidArg),
        },
        Code::I2cRead => match address_data(payload) {
            Some((a, d)) => Ok(RequestView::Read(a, d)),
            None => Err(MsgError::InvalidArg),
        },
        _ => Err(MsgError::NotARequest(code)),
    }
}

/// A parse result seen through the request view.
pub open spec fn request_result_view(r: Result<Request, MsgError>) -> Result<RequestView, MsgError> {
    match r {
        Ok(x) => Ok(x@),
        Err(e) => Err(e),
    }
}

fn consume_address_data(argp: &mut ArgParser) -> (r: Option<(u8, Vec<u8>)>)
    requires
        old(argp).wf(),
        old(argp).pos() == 0,
    ensures
        match r {
            Some((a, d)) => address_data(old(argp).bytes()) == Some((a, d@)),
            None => address_data(old(argp).bytes()) is None,
        },
{
    let addr = match argp.consume_u8() {
        Some(x) => x,
        None => {
            return None;
        },
    };
    let size = match argp.consume_u8() {
        Some(x) => x,
        None => {
            return None;
        },
    };
    if size as usize > I2C_DATA_CAPACITY {
        return None;
    }
    match argp.consume_vector(size as usize) {
        Some(data) => {
            assert(old(argp).bytes().subrange(2, 2 + size as int) =~= data@);
            Some((addr, data))
        },
        None => None,
    }
}

fn address_data_frame(code: Code, addr: u8, data: &Vec<u8>) -> (r: MsgFrame)
    requires
        data@.len() <= I2C_DATA_CAPACITY,
    ensures
        r.code == code,
        r.payload() == seq![addr, data@.len() as u8] + data@,
{
    let mut bytes: Vec<u8> = Vec::new();
    bytes.push(addr);
    bytes.push(data.len() as u8);
    let mut i: usize = 0;
    while i < data.len()
        invariant
            i <= data@.len(),
            data@.len() <= I2C_DATA_CAPACITY,
            bytes@ == seq![addr, data@.len() as u8] + data@.subrange(0, i as int),
        decreases data@.len() - i,
    {
        bytes.push(data[i]);
        i += 1;
        assert(bytes@ =~= seq![addr, data@.len() as u8] + data@.subrange(0, i as int));
    }
    assert(data@.subrange(0, data@.len() as int) =~= data@);
    MsgFrame::new(code, bytes.as_slice())
}

impl Request {
    /// Reads the I2C request of a frame: `InvalidArg` when the address, the
    /// length or data bytes are missing or the length is over capacity,
    /// `NotARequest` for any other opcode.
    pub fn consume_frame(ff: MsgFrame) -> (r: Result<Self, MsgError>)
        ensures
            request_result_view(r) == decode_request(ff.code, ff.payload()),
    {
        let data = ff.payload_slice();
        let mut argp = ArgParser::new(data);
        match ff.code {
            Code::I2cWrite => match consume_address_data(&mut argp) {
                Some((a, d)) => Ok(Self::Write(a, d)),
                None => Err(MsgError::InvalidArg),
            },
            Code::I2cRead => match consume_address_data(&mut argp) {
                Some((a, d)) => Ok(Self::Read(a, d)),
                None => Err(MsgError::InvalidArg),
            },
            _ => Err(MsgError::NotARequest(ff.code)),
        }
    }

    /// The frame of a request whose data fits.
    pub fn to_frame(&self) -> (r: MsgFrame)
        requires
            self@.wf(),
        ensures
            r.code == self@.code(),
            r.payload() == self@.payload(),
    {
        match self {
            Self::Write(a, d) => address_data_frame(Code::I2cWrite, *a, d),
            Self::Read(a, d) => address_data_frame(Code::I2cRead, *a, d),
        }
    }
}

/// Decoding the frame of any I2C request that fits gives that request back.
pub proof fn lemma_request_round_trip(r: RequestView)
    requires
        r.wf(),
    ensures
        decode_request(r.code(), r.payload()) == Ok::<RequestView, MsgError>(r),
{
    match r {
        RequestView::Write(a, d) => {
            assert(r.payload().subrange(2, 2 + d.len() as int) =~= d);
        },
        RequestView::Read(a, d) => {
            assert(r.payload().subrange(2, 2 + d.len() as int) =~= d);
        },
    }
}

} // verus!
