//! Core frame protocol: opcodes, categories, frames and argument parsing.
use vstd::prelude::*;
use vstd::slice::slice_subrange;
use vstd::string::StringSliceAdditionalSpecFns;

verus! {

/// The fixed-capacity buffer that holds a frame's payload.
#[verifier::external_type_specification]
#[verifier::external_body]
#[verifier::reject_recursive_types(T)]
pub struct ExHeaplessVec<T, const N: usize>(heapless::Vec<T, N>);

/// Largest payload a frame can carry.
pub const PAYLOAD_CAPACITY: usize = 64;

/// The bytes held by a frame payload buffer.
pub uninterp spec fn payload_bytes(v: heapless::Vec<u8, 64>) -> Seq<u8>;

/// Relies on heapless::Vec::from_slice: it fails exactly when the slice is
/// longer than the capacity, and otherwise holds a copy of the slice.
#[verifier::external_body]
fn payload_from_slice(s: &[u8]) -> (r: Option<heapless::Vec<u8, 64>>)
    ensures
        r.is_some() <==> s@.len() <= 64,
        r.is_some() ==> payload_bytes(r.unwrap()) == s@,
{
    heapless::Vec::from_slice(s).ok()
}

/// Relies on heapless::Vec::as_slice: the slice holds exactly the stored
/// bytes, never more than the capacity.
#[verifier::external_body]
fn payload_as_slice(v: &heapless::Vec<u8, 64>) -> (r: &[u8])
    ensures
        r@ == payload_bytes(*v),
        r@.len() <= 64,
{
    v.as_slice()
}

/// The CRC-16/CCITT-FALSE checksum of a byte sequence
/// (polynomial 0x1021, initial register 0xFFFF, no reflection, no final XOR).
pub uninterp spec fn crc_ccitt_false(bytes: Seq<u8>) -> u16;

/// Relies on crc16::State::<CCITT_FALSE>::calculate: the checksum depends on
/// the bytes alone.
#[verifier::external_body]
fn checksum(msg: &[u8]) -> (r: u16)
    ensures
        r == crc_ccitt_false(msg@),
{
    crc16::State::<crc16::CCITT_FALSE>::calculate(msg)
}

/// Big-endian value of two bytes.
pub open spec fn be_u16(hi: u8, lo: u8) -> u16 {
    (hi as int * 256 + lo as int) as u16
}

/// Big-endian bytes of a 16-bit value.
pub open spec fn be_bytes_u16(v: u16) -> Seq<u8> {
    seq![(v / 256) as u8, (v % 256) as u8]
}

/// Big-endian bytes of a 32-bit value.
pub open spec fn be_bytes_u32(v: u32) -> Seq<u8> {
    seq![(v / 0x100_0000) as u8, ((v / 0x1_0000) % 256) as u8, ((v / 256) % 256) as u8, (v % 256) as u8]
}

/// Big-endian value of four bytes.
pub open spec fn be_u32(b0: u8, b1: u8, b2: u8, b3: u8) -> u32 {
    (b0 as int * 0x100_0000 + b1 as int * 0x1_0000 + b2 as int * 256 + b3 as int) as u32
}

/// Reading back the big-endian bytes of a 16-bit value gives the value.
pub proof fn lemma_be_u16_bytes(v: u16)
    ensures
        be_bytes_u16(v).len() == 2,
        be_u16(be_bytes_u16(v)[0], be_bytes_u16(v)[1]) == v,
{
}

/// Reading back the big-endian bytes of a 32-bit value gives the value.
pub proof fn lemma_be_u32_bytes(v: u32)
    ensures
        be_bytes_u32(v).len() == 4,
        be_u32(be_bytes_u32(v)[0], be_bytes_u32(v)[1], be_bytes_u32(v)[2], be_bytes_u32(v)[3]) == v,
{
}

pub(crate) fn u16_to_be(v: u16) -> (r: [u8; 2])
    ensures
        r@ == be_bytes_u16(v),
{
    let r = [(v / 256) as u8, (v % 256) as u8];
    assert(r@ =~= be_bytes_u16(v));
    r
}

pub(crate) fn u32_to_be(v: u32) -> (r: [u8; 4])
    ensures
        r@ == be_bytes_u32(v),
{
    let r = [(v / 0x100_0000) as u8, ((v / 0x1_0000) % 256) as u8, ((v / 256) % 256) as u8, (v % 256) as u8];
    assert(r@ =~= be_bytes_u32(v));
    r
}

/// Operation codes of the protocol, each bound to one 16-bit value.
#[derive(Clone, Copy, Debug, PartialEq, Eq, Structural)]
pub enum Code {
    // Generic requests
    Ping,
    ItfType,
    Version,
    IdGet,
    // GPIO requests
    GpioDirSet,
    GpioDirGet,
    GpioRead,
    GpioWrite,
    // PWM requests
    PwmStart,
    PwmStop,
    SetFrequency,
    GetFrequency,
    SetDutyCycle,
    GetDutycycle,
    // UART requests
    DataTX,
    DataRXGet,
    BaudSet,
    BaudGet,
    SetParity,
    SetStopBit,
    SetDataSz,
    HWFlowControl,
    ComErrStart,
    ComErrSize,
    // I2C requests
    I2cWrite,
    I2cRead,
    I2CWriteRead,
    // GPIO responses
    GpioValue,
    GpioDir,
    // PWM responses
    Frequency,
    DutyCycle,
    ErrFrequency,
    ErrDutyCycle,
    // UART responses
    DataRX,
    Baud,
    // Generic status codes
    Good,
    ErrGeneric,
    ErrCRC,
    ErrUnknownCode,
    ErrInvalidArgs,
    ErrBusy,
    // Generic responses
    VersionResp,
    ItfTypeResp,
    IdResp,
}

impl Code {
    /// The 16-bit value of an opcode.
    pub open spec fn value(self) -> u16 {
        match self {
            Code::Ping => 0x0000,
            Code::ItfType => 0x0001,
            Code::Version => 0x0002,
            Code::IdGet => 0x0003,
            Code::GpioDirSet => 0x0100,
            Code::GpioDirGet => 0x0101,
            Code::GpioRead => 0x0102,
            Code::GpioWrite => 0x0103,
            Code::PwmStart => 0x0200,
            Code::PwmStop => 0x0201,
            Code::SetFrequency => 0x0202,
            Code::GetFrequency => 0x0203,
            Code::SetDutyCycle => 0x0204,
            Code::GetDutycycle => 0x0205,
            Code::DataTX => 0x1000,
            Code::DataRXGet => 0x1001,
            Code::BaudSet => 0x1002,
            Code::BaudGet => 0x1003,
            Code::SetParity => 0x1004,
            Code::SetStopBit => 0x1005,
            Code::SetDataSz => 0x1006,
            Code::HWFlowControl => 0x1007,
            Code::ComErrStart => 0x1008,
            Code::ComErrSize => 0x1009,
            Code::I2cWrite => 0x3B00,
            Code::I2cRead => 0x3B01,
            Code::I2CWriteRead => 0x3B02,
            Code::GpioValue => 0xFDFF,
            Code::GpioDir => 0xFDFE,
            Code::Frequency => 0xFCFF,
            Code::DutyCycle => 0xFCFE,
            Code::ErrFrequency => 0xFCFD,
            Code::ErrDutyCycle => 0xFCFC,
            Code::DataRX => 0xEFFF,
            Code::Baud => 0xEFFE,
            Code::Good => 0xFFFF,
            Code::ErrGeneric => 0xFFFE,
            Code::ErrCRC => 0xFFFD,
            Code::ErrUnknownCode => 0xFFFC,
            Code::ErrInvalidArgs => 0xFFFB,
            Code::ErrBusy => 0xFFFA,
            Code::VersionResp => 0xFEFF,
            Code::ItfTypeResp => 0xFEFE,
            Code::IdResp => 0xFEFD,
        }
    }

    /// Decodes an opcode from its two big-endian bytes.
    pub fn from_slice(ss: &[u8; 2]) -> (r: Option<Self>)
        ensures
            r == code_of(be_u16(ss@[0], ss@[1])),
    {
        Self::from_u16((ss[0] as u16) * 256 + (ss[1] as u16))
    }

    /// Decodes an opcode from its value; `None` for a value that no opcode has.
    pub fn from_u16(code: u16) -> (r: Option<Self>)
        ensures
            r == code_of(code),
    {
        let r = match code {
            // Generic requests
            0x0000 => Some(Self::Ping),
            0x0001 => Some(Self::ItfType),
            0x0002 => Some(Self::Version),
            0x0003 => Some(Self::IdGet),
            // GPIO requests
            0x0100 => Some(Self::GpioDirSet),
            0x0101 => Some(Self::GpioDirGet),
            0x0102 => Some(Self::GpioRead),
            0x0103 => Some(Self::GpioWrite),
            // PWM requests
            0x0200 => Some(Self::PwmStart),
            0x0201 => Some(Self::PwmStop),
            0x0202 => Some(Self::SetFrequency),
            0x0203 => Some(Self::GetFrequency),
            0x0204 => Some(Self::SetDutyCycle),
            0x0205 => Some(Self::GetDutycycle),
            // UART requests
            0x1000 => Some(Self::DataTX),
            0x1001 => Some(Self::DataRXGet),
            0x1002 => Some(Self::BaudSet),
            0x1003 => Some(Self::BaudGet),
            0x1004 => Some(Self::SetParity),
            0x1005 => Some(Self::SetStopBit),
            0x1006 => Some(Self::SetDataSz),
            0x1007 => Some(Self::HWFlowControl),
            0x1008 => Some(Self::ComErrStart),
            0x1009 => Some(Self::ComErrSize),
            // I2C requests
            0x3B00 => Some(Self::I2cWrite),
            0x3B01 => Some(Self::I2cRead),
            0x3B02 => Some(Self::I2CWriteRead),
            // GPIO responses
            0xFDFF => Some(Self::GpioValue),
            0xFDFE => Some(Self::GpioDir),
            // PWM responses
            0xFCFF => Some(Self::Frequency),
            0xFCFE => Some(Self::DutyCycle),
            0xFCFD => Some(Self::ErrFrequency),
            0xFCFC => Some(Self::ErrDutyCycle),
            // UART responses
            0xEFFF => Some(Self::DataRX),
            0xEFFE => Some(Self::Baud),
            // Generic status codes
            0xFFFF => Some(Self::Good),
            0xFFFE => Some(Self::ErrGeneric),
            0xFFFD => Some(Self::ErrCRC),
            0xFFFC => Some(Self::ErrUnknownCode),
            0xFFFB => Some(Self::ErrInvalidArgs),
            0xFFFA => Some(Self::ErrBusy),
            // Generic responses
            0xFEFF => Some(Self::VersionResp),
            0xFEFE => Some(Self::ItfTypeResp),
            0xFEFD => Some(Self::IdResp),
            _ => None,
        };
        proof {
            if let Some(c) = r {
                lemma_code_of_value(c);
            }
        }
        r
    }

    /// The 16-bit value of this opcode.
    pub fn to_u16(&self) -> (r: u16)
        ensures
            r == self.value(),
    {
        match self {
            Self::Ping => 0x0000,
            Self::ItfType => 0x0001,
            Self::Version => 0x0002,
            Self::IdGet => 0x0003,
            Self::GpioDirSet => 0x0100,
            Self::GpioDirGet => 0x0101,
            Self::GpioRead => 0x0102,
            Self::GpioWrite => 0x0103,
            Self::PwmStart => 0x0200,
            Self::PwmStop => 0x0201,
            Self::SetFrequency => 0x0202,
            Self::GetFrequency => 0x0203,
            Self::SetDutyCycle => 0x0204,
            Self::GetDutycycle => 0x0205,
            Self::DataTX => 0x1000,
            Self::DataRXGet => 0x1001,
            Self::BaudSet => 0x1002,
            Self::BaudGet => 0x1003,
            Self::SetParity => 0x1004,
            Self::SetStopBit => 0x1005,
            Self::SetDataSz => 0x1006,
            Self::HWFlowControl => 0x1007,
            Self::ComErrStart => 0x1008,
            Self::ComErrSize => 0x1009,
            Self::I2cWrite => 0x3B00,
            Self::I2cRead => 0x3B01,
            Self::I2CWriteRead => 0x3B02,
            Self::GpioValue => 0xFDFF,
            Self::GpioDir => 0xFDFE,
            Self::Frequency => 0xFCFF,
            Self::DutyCycle => 0xFCFE,
            Self::ErrFrequency => 0xFCFD,
            Self::ErrDutyCycle => 0xFCFC,
            Self::DataRX => 0xEFFF,
            Self::Baud => 0xEFFE,
            Self::Good => 0xFFFF,
            Self::ErrGeneric => 0xFFFE,
            Self::ErrCRC => 0xFFFD,
            Self::ErrUnknownCode => 0xFFFC,
            Self::ErrInvalidArgs => 0xFFFB,
            Self::ErrBusy => 0xFFFA,
            Self::VersionResp => 0xFEFF,
            Self::ItfTypeResp => 0xFEFE,
            Self::IdResp => 0xFEFD,
        }
    }
}

/// The opcode whose value is `v`, if any.
pub open spec fn code_of(v: u16) -> Option<Code> {
    if exists|c: Code| c.value() == v {
        Some(choose|c: Code| c.value() == v)
    } else {
        None
    }
}

/// Distinct opcodes have distinct values.
pub proof fn lemma_value_injective(c1: Code, c2: Code)
    requires
        c1.value() == c2.value(),
    ensures
        c1 == c2,
{
}

/// Every opcode is found again from its value.
pub proof fn lemma_code_of_value(c: Code)
    ensures
        code_of(c.value()) == Some(c),
{
    let d = choose|d: Code| d.value() == c.value();
    lemma_value_injective(c, d);
}


/// The routing class of an opcode.
#[derive(Clone, Copy, Debug, PartialEq, Eq, Structural)]
pub enum CodeCategory {
    ReqGeneric,
    ReqGpio,
    ReqPwm,
    ReqUart,
    ReqI2c,

    RespGpio,
    RespPwm,
    RespUart,
    RespGeneric,
    StatusGeneric,
}

/// The category of an opcode value, read from the namespace it falls in.
pub open spec fn category_of_value(v: u16) -> Option<CodeCategory> {
    if v <= 0x00FF {
        Some(CodeCategory::ReqGeneric)
    } else if 0x0100 <= v <= 0x01FF {
        Some(CodeCategory::ReqGpio)
    } else if 0x0200 <= v <= 0x02FF {
        Some(CodeCategory::ReqPwm)
    } else if 0x1000 <= v <= 0x10FF {
        Some(CodeCategory::ReqUart)
    } else if 0x3B00 <= v <= 0x3BFF {
        Some(CodeCategory::ReqI2c)
    } else if 0xFF00 <= v {
        Some(CodeCategory::StatusGeneric)
    } else if 0xFE00 <= v <= 0xFEFF {
        Some(CodeCategory::RespGeneric)
    } else if 0xFD00 <= v <= 0xFDFF {
        Some(CodeCategory::RespGpio)
    } else if 0xFC00 <= v <= 0xFCFF {
        Some(CodeCategory::RespPwm)
    } else if 0xEF00 <= v <= 0xEFFF {
        Some(CodeCategory::RespUart)
    } else {
        None
    }
}

impl CodeCategory {
    /// The category of an opcode: a function of its value alone.
    pub fn categorize(code: &Code) -> (r: Self)
        ensures
            category_of_value(code.value()) == Some(r),
    {
        match code {
            Code::Ping | Code::ItfType | Code::Version | Code::IdGet => Self::ReqGeneric,

            Code::GpioDirSet | Code::GpioDirGet | Code::GpioRead | Code::GpioWrite => Self::ReqGpio,

            Code::PwmStart | Code::PwmStop | Code::SetFrequency | Code::GetFrequency
            | Code::SetDutyCycle | Code::GetDutycycle => Self::ReqPwm,

            Code::DataTX | Code::DataRXGet | Code::BaudSet | Code::BaudGet | Code::SetParity
            | Code::SetStopBit | Code::SetDataSz | Code::HWFlowControl | Code::ComErrStart
            | Code::ComErrSize => Self::ReqUart,

            Code::I2cWrite | Code::I2cRead | Code::I2CWriteRead => Self::ReqI2c,

            Code::GpioValue | Code::GpioDir => Self::RespGpio,

            Code::Frequency | Code::DutyCycle | Code::ErrFrequency | Code::ErrDutyCycle => Self::RespPwm,

            Code::DataRX | Code::Baud => Self::RespUart,

            Code::VersionResp | Code::ItfTypeResp | Code::IdResp => Self::RespGeneric,

            Code::Good | Code::ErrGeneric | Code::ErrCRC | Code::ErrUnknownCode
            | Code::ErrInvalidArgs | Code::ErrBusy => Self::StatusGeneric,
        }
    }

    /// Whether the category holds requests.
    pub open spec fn spec_is_request(self) -> bool {
        match self {
            CodeCategory::ReqGeneric | CodeCategory::ReqGpio | CodeCategory::ReqPwm
            | CodeCategory::ReqUart | CodeCategory::ReqI2c => true,
            _ => false,
        }
    }

    /// Whether the category holds requests.
    pub fn is_request(&self) -> (r: bool)
        ensures
            r == self.spec_is_request(),
    {
        match self {
            Self::ReqGeneric | Self::ReqGpio | Self::ReqPwm | Self::ReqUart | Self::ReqI2c => true,
            _ => false,
        }
    }

    /// Whether the category holds responses or status codes.
    pub fn is_response(&self) -> (r: bool)
        ensures
            r == !self.spec_is_request(),
    {
        match self {
            Self::RespGpio | Self::RespPwm | Self::RespUart | Self::RespGeneric
            | Self::StatusGeneric => true,
            _ => false,
        }
    }
}

/// The kind of interface a firmware exposes.
#[derive(Clone, Copy, Debug, PartialEq, Eq, Structural)]
pub enum ItfType {
    Dummy,
    Gpio,
    Pwm,
    Uart,
    I2c,
}

impl ItfType {
    /// The byte that stands for an interface kind.
    pub open spec fn value(self) -> u8 {
        match self {
            ItfType::Dummy => 0x00,
            ItfType::Gpio => 0x01,
            ItfType::Pwm => 0x02,
            ItfType::Uart => 0x03,
            ItfType::I2c => 0x04,
        }
    }

    /// Decodes an interface kind; `None` for a byte that stands for none.
    pub fn from_u8(x: u8) -> (r: Option<Self>)
        ensures
            match r {
                Some(t) => t.value() == x,
                None => forall|t: ItfType| t.value() != x,
            },
    {
        match x {
            0x00 => Some(Self::Dummy),
            0x01 => Some(Self::Gpio),
            0x02 => Some(Self::Pwm),
            0x03 => Some(Self::Uart),
            0x04 => Some(Self::I2c),
            _ => None,
        }
    }

    /// The byte of this interface kind.
    pub fn to_u8(&self) -> (r: u8)
        ensures
            r == self.value(),
    {
        match self {
            Self::Dummy => 0x00,
            Self::Gpio => 0x01,
            Self::Pwm => 0x02,
            Self::Uart => 0x03,
            Self::I2c => 0x04,
        }
    }
}

/// Why a frame or a request could not be accepted.
#[derive(Clone, Copy, Debug, PartialEq, Eq, Structural)]
pub enum MsgError {
    InvalidLength,
    /// Checksum computed over the frame, checksum carried by the frame.
    InvalidCRC(u16, u16),
    UnknownCode,
    InvalidArg,
    NotARequest(Code),
    NotAResponse(Code),
}


/// Bytes covered by the checksum: the big-endian opcode, then the payload.
pub open spec fn frame_body(code: Code, payload: Seq<u8>) -> Seq<u8> {
    be_bytes_u16(code.value()) + payload
}

/// A frame as it travels: body, then the big-endian checksum of the body.
pub open spec fn frame_wire(code: Code, payload: Seq<u8>) -> Seq<u8> {
    frame_body(code, payload) + be_bytes_u16(crc_ccitt_false(frame_body(code, payload)))
}

/// The checksum carried by the last two bytes of a raw frame.
pub open spec fn carried_crc(raw: Seq<u8>) -> u16 {
    be_u16(raw[raw.len() - 2], raw[raw.len() - 1])
}

/// The checksum of everything but the last two bytes of a raw frame.
pub open spec fn computed_crc(raw: Seq<u8>) -> u16 {
    crc_ccitt_false(raw.subrange(0, raw.len() - 2))
}

/// What parsing `raw` yields when the checksum of its body is `computed`:
/// the opcode and payload, or the first check that fails.
pub open spec fn parse_result(raw: Seq<u8>, computed: u16) -> Result<(Code, Seq<u8>), MsgError> {
    if raw.len() < 4 {
        Err(MsgError::InvalidLength)
    } else if computed != carried_crc(raw) {
        Err(MsgError::InvalidCRC(computed, carried_crc(raw)))
    } else {
        match code_of(be_u16(raw[0], raw[1])) {
            None => Err(MsgError::UnknownCode),
            Some(code) => if raw.len() - 4 > PAYLOAD_CAPACITY {
                Err(MsgError::InvalidLength)
            } else {
                Ok((code, raw.subrange(2, raw.len() - 2)))
            },
        }
    }
}

/// What parsing a raw frame yields.
pub open spec fn spec_from_slice(raw: Seq<u8>) -> Result<(Code, Seq<u8>), MsgError> {
    if raw.len() < 4 {
        Err(MsgError::InvalidLength)
    } else {
        parse_result(raw, computed_crc(raw))
    }
}

/// One protocol message: an opcode and a payload of at most 64 bytes.
#[derive(Debug)]
pub struct MsgFrame {
    pub code: Code,
    pub data: heapless::Vec<u8, 64>,
}

/// The opcode and payload that a parse result holds.
pub open spec fn frame_result_matches(r: Result<MsgFrame, MsgError>, s: Result<(Code, Seq<u8>), MsgError>) -> bool {
    match r {
        Ok(f) => s == Ok::<(Code, Seq<u8>), MsgError>((f.code, f.payload())),
        Err(e) => s == Err::<(Code, Seq<u8>), MsgError>(e),
    }
}

impl MsgFrame {
    /// The payload bytes.
    pub open spec fn payload(&self) -> Seq<u8> {
        payload_bytes(self.data)
    }

    /// A frame with the given opcode and payload.
    pub fn new(code: Code, data: &[u8]) -> (r: Self)
        requires
            data@.len() <= PAYLOAD_CAPACITY,
        ensures
            r.code == code,
            r.payload() == data@,
    {
        let d = payload_from_slice(data);
        Self { code, data: d.unwrap() }
    }

    /// The payload bytes.
    pub fn payload_slice(&self) -> (r: &[u8])
        ensures
            r@ == self.payload(),
            r@.len() <= PAYLOAD_CAPACITY,
    {
        payload_as_slice(&self.data)
    }

    /// Checksum of the frame: CRC-16/CCITT-FALSE over the big-endian opcode
    /// followed by the payload.
    pub fn crc(&self) -> (r: u16)
        ensures
            r == crc_ccitt_false(frame_body(self.code, self.payload())),
    {
        let body = self.body_bytes();
        checksum(body.as_slice())
    }

    fn body_bytes(&self) -> (r: Vec<u8>)
        ensures
            r@ == frame_body(self.code, self.payload()),
    {
        let code = u16_to_be(self.code.to_u16());
        let mut out: Vec<u8> = Vec::new();
        out.push(code[0]);
        out.push(code[1]);
        let p = self.payload_slice();
        let mut i: usize = 0;
        while i < p.len()
            invariant
                i <= p@.len(),
                out@ == be_bytes_u16(self.code.value()) + p@.subrange(0, i as int),
            decreases p@.len() - i,
        {
            out.push(p[i]);
            i += 1;
            assert(out@ =~= be_bytes_u16(self.code.value()) + p@.subrange(0, i as int));
        }
        assert(p@.subrange(0, p@.len() as int) =~= p@);
        out
    }

    /// The frame as it travels: opcode, payload, then the checksum, all
    /// multi-byte values big-endian.
    pub fn to_bytes(&self) -> (r: Vec<u8>)
        ensures
            r@ == frame_wire(self.code, self.payload()),
    {
        self.to_bytes_with_crc(self.crc())
    }

    /// The frame as it travels, with `crc` as its checksum: opcode, payload,
    /// then `crc`, all multi-byte values big-endian.
    pub fn to_bytes_with_crc(&self, crc: u16) -> (r: Vec<u8>)
        ensures
            r@ == frame_body(self.code, self.payload()) + be_bytes_u16(crc),
    {
        let mut out = self.body_bytes();
        let c = u16_to_be(crc);
        out.push(c[0]);
        out.push(c[1]);
        assert(out@ =~= frame_body(self.code, self.payload()) + be_bytes_u16(crc));
        out
    }

    /// Parses a raw frame whose body has checksum `computed`: checks the
    /// length, the carried checksum against `computed`, the opcode and the
    /// payload size, in that order.
    pub fn parse_checked(ss: &[u8], computed: u16) -> (r: Result<Self, MsgError>)
        ensures
            frame_result_matches(r, parse_result(ss@, computed)),
    {
        let n = ss.len();
        if n < 4 {
            return Err(MsgError::InvalidLength);
        }
        let carried = (ss[n - 2] as u16) * 256 + (ss[n - 1] as u16);
        if computed != carried {
            return Err(MsgError::InvalidCRC(computed, carried));
        }
        let code = match Code::from_u16((ss[0] as u16) * 256 + (ss[1] as u16)) {
            Some(x) => x,
            None => {
                return Err(MsgError::UnknownCode);
            },
        };
        let body = slice_subrange(ss, 2, n - 2);
        match payload_from_slice(body) {
            Some(d) => Ok(Self { code, data: d }),
            None => Err(MsgError::InvalidLength),
        }
    }

    /// Parses a raw frame: fails with `InvalidLength` under four bytes, with
    /// `InvalidCRC(computed, carried)` when the trailing checksum does not
    /// match, with `UnknownCode` for an unknown opcode and with
    /// `InvalidLength` for a payload over capacity.
    pub fn from_slice(ss: &[u8]) -> (r: Result<Self, MsgError>)
        ensures
            frame_result_matches(r, spec_from_slice(ss@)),
    {
        let n = ss.len();
        if n < 4 {
            return Err(MsgError::InvalidLength);
        }
        let computed = checksum(slice_subrange(ss, 0, n - 2));
        Self::parse_checked(ss, computed)
    }
}


/// The frame that carries `text` as its payload, for a text known to fit.
fn text_frame(code: Code, text: &str) -> (r: MsgFrame)
    requires
        text.spec_bytes().len() <= PAYLOAD_CAPACITY,
    ensures
        r.code == code,
        r.payload() == text.spec_bytes(),
{
    MsgFrame::new(code, text.as_bytes())
}

impl MsgError {
    /// The status code that answers this error.
    pub open spec fn status_code(self) -> Code {
        match self {
            MsgError::InvalidLength => Code::ErrGeneric,
            MsgError::InvalidCRC(_, _) => Code::ErrCRC,
            MsgError::UnknownCode => Code::ErrUnknownCode,
            MsgError::InvalidArg => Code::ErrInvalidArgs,
            MsgError::NotARequest(_) => Code::ErrUnknownCode,
            MsgError::NotAResponse(_) => Code::ErrUnknownCode,
        }
    }

    /// The short text that explains this error.
    pub open spec fn reason(self) -> &'static str {
        match self {
            MsgError::InvalidLength => "Invalid length",
            MsgError::InvalidCRC(_, _) => "CRC error",
            MsgError::UnknownCode => "Unknown code",
            MsgError::InvalidArg => "Invalid argument",
            MsgError::NotARequest(_) => "Not a request code",
            MsgError::NotAResponse(_) => "Not a response code",
        }
    }

    /// The status frame that reports this error: its status code, with the
    /// reason as ASCII text.
    pub fn to_frame(&self) -> (r: MsgFrame)
        ensures
            r.code == self.status_code(),
            r.payload() == self.reason().spec_bytes(),
    {
        broadcast use vstd::string::is_ascii_spec_bytes;
        match self {
            Self::InvalidLength => {
                proof {
                    reveal_strlit("Invalid length");
                    assert(vstd::string::is_ascii("Invalid length"));
                }
                text_frame(Code::ErrGeneric, "Invalid length")
            },
            Self::InvalidCRC(_a, _b) => {
                proof {
                    reveal_strlit("CRC error");
                    assert(vstd::string::is_ascii("CRC error"));
                }
                text_frame(Code::ErrCRC, "CRC error")
            },
            Self::UnknownCode => {
                proof {
                    reveal_strlit("Unknown code");
                    assert(vstd::string::is_ascii("Unknown code"));
                }
                text_frame(Code::ErrUnknownCode, "Unknown code")
            },
            Self::InvalidArg => {
                proof {
                    reveal_strlit("Invalid argument");
                    assert(vstd::string::is_ascii("Invalid argument"));
                }
                text_frame(Code::ErrInvalidArgs, "Invalid argument")
            },
            Self::NotARequest(_c) => {
                proof {
                    reveal_strlit("Not a request code");
                    assert(vstd::string::is_ascii("Not a request code"));
                }
                text_frame(Code::ErrUnknownCode, "Not a request code")
            },
            Self::NotAResponse(_c) => {
                proof {
                    reveal_strlit("Not a response code");
                    assert(vstd::string::is_ascii("Not a response code"));
                }
                text_frame(Code::ErrUnknownCode, "Not a response code")
            },
        }
    }
}

/// A cursor that reads big-endian values from a byte slice, front to back.
pub struct ArgParser<'a> {
    buf: &'a [u8],
    idx: usize,
}

impl<'a> ArgParser<'a> {
    /// The bytes under the cursor.
    pub closed spec fn bytes(&self) -> Seq<u8> {
        self.buf@
    }

    /// How many bytes have been consumed.
    pub closed spec fn pos(&self) -> nat {
        self.idx as nat
    }

    /// The bytes not consumed yet.
    pub open spec fn rest(&self) -> Seq<u8> {
        self.bytes().subrange(self.pos() as int, self.bytes().len() as int)
    }

    /// Whether the invariant of the value holds.
    pub closed spec fn wf(&self) -> bool {
        self.idx <= self.buf@.len()
    }

    /// A cursor at the start of `buf`.
    pub fn new(buf: &'a [u8]) -> (r: Self)
        ensures
            r.wf(),
            r.bytes() == buf@,
            r.pos() == 0,
            r.rest() == buf@,
    {
        let r = Self { buf, idx: 0 };
        assert(r.rest() =~= buf@);
        r
    }

    /// Reads one byte; `None`, with the cursor unmoved, when none is left.
    pub fn consume_u8(&mut self) -> (r: Option<u8>)
        requires
            old(self).wf(),
        ensures
            final(self).wf(),
            final(self).bytes() == old(self).bytes(),
            old(self).rest().len() >= 1 ==> r == Some(old(self).rest()[0])
                && final(self).pos() == old(self).pos() + 1,
            old(self).rest().len() < 1 ==> r is None && final(self).pos() == old(self).pos(),
    {
        if self.idx < self.buf.len() {
            let c = self.buf[self.idx];
            self.idx += 1;
            Some(c)
        } else {
            None
        }
    }

    /// Reads a big-endian 16-bit value; `None`, with the cursor unmoved, when
    /// fewer than two bytes are left.
    pub fn consume_u16(&mut self) -> (r: Option<u16>)
        requires
            old(self).wf(),
        ensures
            final(self).wf(),
            final(self).bytes() == old(self).bytes(),
            old(self).rest().len() >= 2 ==> r == Some(be_u16(old(self).rest()[0], old(self).rest()[1]))
                && final(self).pos() == old(self).pos() + 2,
            old(self).rest().len() < 2 ==> r is None && final(self).pos() == old(self).pos(),
    {
        if self.buf.len() - self.idx >= 2 {
            let x = (self.buf[self.idx] as u16) * 256 + (self.buf[self.idx + 1] as u16);
            self.idx += 2;
            Some(x)
        } else {
            None
        }
    }

    /// Reads a big-endian 32-bit value; `None`, with the cursor unmoved, when
    /// fewer than four bytes are left.
    pub fn consume_u32(&mut self) -> (r: Option<u32>)
        requires
            old(self).wf(),
        ensures
            final(self).wf(),
            final(self).bytes() == old(self).bytes(),
            old(self).rest().len() >= 4 ==> r == Some(be_u32(old(self).rest()[0], old(self).rest()[1], old(self).rest()[2], old(self).rest()[3]))
                && final(self).pos() == old(self).pos() + 4,
            old(self).rest().len() < 4 ==> r is None && final(self).pos() == old(self).pos(),
    {
        if self.buf.len() - self.idx >= 4 {
            let i = self.idx;
            let x = (self.buf[i] as u32) * 0x100_0000 + (self.buf[i + 1] as u32) * 0x1_0000
                + (self.buf[i + 2] as u32) * 256 + (self.buf[i + 3] as u32);
            self.idx += 4;
            Some(x)
        } else {
            None
        }
    }

    /// Reads `n` bytes; `None`, with the cursor unmoved, when fewer are left.
    pub fn consume_vector(&mut self, n: usize) -> (r: Option<Vec<u8>>)
        requires
            old(self).wf(),
        ensures
            final(self).wf(),
            final(self).bytes() == old(self).bytes(),
            old(self).rest().len() >= n ==> r is Some && r.unwrap()@ == old(self).rest().subrange(0, n as int)
                && final(self).pos() == old(self).pos() + n,
            old(self).rest().len() < n ==> r is None && final(self).pos() == old(self).pos(),
    {
        let len = self.buf.len();
        if len - self.idx >= n {
            let mut out: Vec<u8> = Vec::new();
            let start = self.idx;
            let mut k: usize = 0;
            while k < n
                invariant
                    self.wf(),
                    self.buf@ == old(self).buf@,
                    self.idx == start,
                    len == self.buf@.len(),
                    start + n <= len,
                    k <= n,
                    out@ == self.buf@.subrange(start as int, start + k),
                decreases n - k,
            {
                out.push(self.buf[start + k]);
                k += 1;
                assert(out@ =~= self.buf@.subrange(start as int, start + k));
            }
            self.idx = start + n;
            assert(out@ =~= old(self).rest().subrange(0, n as int));
            Some(out)
        } else {
            None
        }
    }
}


/// The wire bytes of a frame parse back to the same opcode and payload.
pub proof fn lemma_frame_round_trip(code: Code, payload: Seq<u8>)
    requires
        payload.len() <= PAYLOAD_CAPACITY,
    ensures
        spec_from_slice(frame_wire(code, payload)) == Ok::<(Code, Seq<u8>), MsgError>((code, payload)),
{
    let body = frame_body(code, payload);
    let raw = frame_wire(code, payload);
    lemma_be_u16_bytes(code.value());
    lemma_be_u16_bytes(crc_ccitt_false(body));
    lemma_code_of_value(code);
    assert(raw.subrange(0, raw.len() - 2) =~= body);
    assert(raw.subrange(2, raw.len() - 2) =~= payload);
    assert(raw[0] == be_bytes_u16(code.value())[0]);
    assert(raw[1] == be_bytes_u16(code.value())[1]);
}

/// `raw` with bit `bit` of byte `i` inverted.
pub open spec fn flip_bit(raw: Seq<u8>, i: int, bit: u8) -> Seq<u8> {
    raw.update(i, raw[i] ^ (1u8 << bit))
}

proof fn lemma_flip_changes(x: u8, bit: u8)
    requires
        bit < 8,
    ensures
        x ^ (1u8 << bit) != x,
{
    assert(x ^ (1u8 << bit) != x) by (bit_vector)
        requires
            bit < 8,
    ;
}

/// Inverting any single bit of a frame's checksum field makes parsing fail
/// with a checksum mismatch that reports the true checksum of the body.
pub proof fn lemma_checksum_field_flip(code: Code, payload: Seq<u8>, i: int, bit: u8)
    requires
        payload.len() <= PAYLOAD_CAPACITY,
        frame_wire(code, payload).len() - 2 <= i < frame_wire(code, payload).len(),
        bit < 8,
    ensures
        spec_from_slice(flip_bit(frame_wire(code, payload), i, bit)) == Err::<(Code, Seq<u8>), MsgError>(
            MsgError::InvalidCRC(
                crc_ccitt_false(frame_body(code, payload)),
                carried_crc(flip_bit(frame_wire(code, payload), i, bit)),
            ),
        ),
        carried_crc(flip_bit(frame_wire(code, payload), i, bit)) != crc_ccitt_false(frame_body(code, payload)),
{
    let body = frame_body(code, payload);
    let raw = frame_wire(code, payload);
    let bad = flip_bit(raw, i, bit);
    lemma_be_u16_bytes(code.value());
    lemma_be_u16_bytes(crc_ccitt_false(body));
    lemma_flip_changes(raw[i], bit);
    assert(bad.subrange(0, bad.len() - 2) =~= body);
    assert(carried_crc(raw) == crc_ccitt_false(body));
    let n = raw.len();
    if i == n - 2 {
        assert(bad[n - 2] != raw[n - 2]);
        assert(bad[n - 1] == raw[n - 1]);
    } else {
        assert(bad[n - 2] == raw[n - 2]);
        assert(bad[n - 1] != raw[n - 1]);
    }
}

/// Inverting any single bit of a frame's opcode or payload makes parsing
/// fail with a checksum mismatch, unless the checksum of the altered body
/// happens to equal the checksum carried by the frame.
pub proof fn lemma_body_flip(code: Code, payload: Seq<u8>, i: int, bit: u8)
    requires
        payload.len() <= PAYLOAD_CAPACITY,
        0 <= i < frame_body(code, payload).len(),
        bit < 8,
    ensures
        ({
            let bad = flip_bit(frame_wire(code, payload), i, bit);
            let altered = flip_bit(frame_body(code, payload), i, bit);
            crc_ccitt_false(altered) == crc_ccitt_false(frame_body(code, payload))
                || spec_from_slice(bad) == Err::<(Code, Seq<u8>), MsgError>(
                    MsgError::InvalidCRC(crc_ccitt_false(altered), crc_ccitt_false(frame_body(code, payload))),
                )
        }),
{
    let body = frame_body(code, payload);
    let raw = frame_wire(code, payload);
    let bad = flip_bit(raw, i, bit);
    lemma_be_u16_bytes(code.value());
    lemma_be_u16_bytes(crc_ccitt_false(body));
    assert(bad.subrange(0, bad.len() - 2) =~= flip_bit(body, i, bit));
    assert(carried_crc(bad) == carried_crc(raw));
}

} // verus!
