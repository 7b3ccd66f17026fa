//! SLIP byte stuffing over a byte stream, into fixed-capacity buffers.
use vstd::prelude::*;

verus! {

/// Ends a frame.
pub const END: u8 = 0xC0;
/// Starts an escape sequence.
pub const ESC: u8 = 0xDB;
/// Escaped `END`.
pub const ESC_END: u8 = 0xDC;
/// Escaped `ESC`.
pub const ESC_ESC: u8 = 0xDD;

/// What went wrong while coding.
#[derive(Clone, Copy, Debug, PartialEq, Eq, Structural)]
pub enum SlipErrorCode {
    BadEsc,
    BufferFull,
}

/// A coding failure and the count of input bytes consumed when it came,
/// the offending byte included.
#[derive(Clone, Copy, Debug, PartialEq, Eq, Structural)]
pub struct SlipError {
    pub pos: usize,
    pub code: SlipErrorCode,
}

impl From<SlipErrorCode> for SlipError {
    fn from(err: SlipErrorCode) -> (r: Self)
        ensures
            r == (SlipError { pos: 0, code: err }),
    {
        Self { pos: 0, code: err }
    }
}

impl vstd::std_specs::convert::FromSpecImpl<SlipErrorCode> for SlipError {
    open spec fn obeys_from_spec() -> bool {
        true
    }

    open spec fn from_spec(err: SlipErrorCode) -> Self {
        SlipError { pos: 0, code: err }
    }
}

/// The stuffed form of one byte.
pub open spec fn escape_byte(c: u8) -> Seq<u8> {
    if c == END {
        seq![ESC, ESC_END]
    } else if c == ESC {
        seq![ESC, ESC_ESC]
    } else {
        seq![c]
    }
}

/// The stuffed form of a byte sequence: each byte in turn.
pub open spec fn slip_escape(s: Seq<u8>) -> Seq<u8>
    decreases s.len(),
{
    if s.len() == 0 {
        seq![]
    } else {
        slip_escape(s.drop_last()) + escape_byte(s.last())
    }
}

/// An append-only byte buffer of fixed capacity.
pub struct BasicBuffer<const CAPACITY: usize> {
    buf: Vec<u8>,
}

impl<const CAPACITY: usize> BasicBuffer<CAPACITY> {
    /// The bytes held.
    pub closed spec fn bytes(&self) -> Seq<u8> {
        self.buf@
    }

    /// Whether the invariant of the value holds.
    pub open spec fn wf(&self) -> bool {
        self.bytes().len() <= CAPACITY
    }

    /// An empty buffer.
    pub fn new() -> (r: Self)
        ensures
            r.wf(),
            r.bytes() == Seq::<u8>::empty(),
    {
        Self { buf: Vec::new() }
    }

    /// Empties the buffer.
    pub fn reset(&mut self)
        ensures
            final(self).bytes() == Seq::<u8>::empty(),
    {
        self.buf.clear();
    }

    /// The bytes held.
    pub fn slice(&self) -> (r: &[u8])
        ensures
            r@ == self.bytes(),
    {
        self.buf.as_slice()
    }

    /// Appends a byte; `BufferFull`, with the buffer unchanged, when it is full.
    pub fn put(&mut self, c: u8) -> (r: Result<(), SlipErrorCode>)
        requires
            old(self).wf(),
        ensures
            final(self).wf(),
            old(self).bytes().len() < CAPACITY ==> r is Ok && final(self).bytes() == old(self).bytes().push(c),
            old(self).bytes().len() >= CAPACITY ==> r == Err::<(), SlipErrorCode>(SlipErrorCode::BufferFull)
                && final(self).bytes() == old(self).bytes(),
    {
        if self.buf.len() >= CAPACITY {
            Err(SlipErrorCode::BufferFull)
        } else {
            self.buf.push(c);
            Ok(())
        }
    }
}


/// Where a decoder stands after some input.
pub enum DecodeStatus {
    /// Waiting for more input.
    Running,
    /// A frame terminator was read.
    Ended,
    /// Decoding failed.
    Failed(SlipErrorCode),
}

/// The state of a decoder over one `feed` call: the decoded bytes, whether
/// an escape byte is pending, and how many input bytes were consumed.
pub struct DecodeState {
    pub acc: Seq<u8>,
    pub esc: bool,
    pub status: DecodeStatus,
    pub used: nat,
}

/// Appends a decoded byte, failing when `cap` bytes are already held.
pub open spec fn decode_put(s: DecodeState, b: u8, cap: nat) -> DecodeState {
    if s.acc.len() >= cap {
        DecodeState { status: DecodeStatus::Failed(SlipErrorCode::BufferFull), ..s }
    } else {
        DecodeState { acc: s.acc.push(b), ..s }
    }
}

/// The effect of one input byte on a running decoder.
pub open spec fn decode_step(s: DecodeState, c: u8, cap: nat) -> DecodeState {
    let s = DecodeState { used: s.used + 1, ..s };
    if s.esc {
        let s = DecodeState { esc: false, ..s };
        if c == ESC_END {
            decode_put(s, END, cap)
        } else if c == ESC_ESC {
            decode_put(s, ESC, cap)
        } else {
            DecodeState { status: DecodeStatus::Failed(SlipErrorCode::BadEsc), ..s }
        }
    } else if c == END {
        DecodeState { status: DecodeStatus::Ended, ..s }
    } else if c == ESC {
        DecodeState { esc: true, ..s }
    } else {
        decode_put(s, c, cap)
    }
}

/// The state after reading `input` from `s`, byte by byte, stopping at the
/// first terminator or failure.
pub open spec fn decode_run(s: DecodeState, input: Seq<u8>, cap: nat) -> DecodeState
    decreases input.len(),
{
    if input.len() == 0 {
        s
    } else {
        let t = decode_run(s, input.drop_last(), cap);
        if t.status is Running {
            decode_step(t, input.last(), cap)
        } else {
            t
        }
    }
}

/// A decoder that stopped stays where it stopped.
pub proof fn lemma_decode_stopped(s: DecodeState, input: Seq<u8>, cap: nat)
    requires
        !(s.status is Running),
    ensures
        decode_run(s, input, cap) == s,
    decreases input.len(),
{
    if input.len() > 0 {
        lemma_decode_stopped(s, input.drop_last(), cap);
    }
}

/// Reading `p + q` is reading `p`, then `q`.
pub proof fn lemma_decode_concat(s: DecodeState, p: Seq<u8>, q: Seq<u8>, cap: nat)
    ensures
        decode_run(s, p + q, cap) == decode_run(decode_run(s, p, cap), q, cap),
    decreases q.len(),
{
    if q.len() == 0 {
        assert(p + q =~= p);
    } else {
        assert((p + q).drop_last() =~= p + q.drop_last());
        lemma_decode_concat(s, p, q.drop_last(), cap);
    }
}

/// A fresh decoder state holding `acc`.
pub open spec fn decode_start(acc: Seq<u8>, esc: bool) -> DecodeState {
    DecodeState { acc, esc, status: DecodeStatus::Running, used: 0 }
}

/// SLIP decoder: turns stuffed input back into the bytes of one frame.
pub struct Decoder<const CAPACITY: usize> {
    buf: BasicBuffer<CAPACITY>,
    is_escaping: bool,
}

impl<const CAPACITY: usize> Decoder<CAPACITY> {
    /// The bytes decoded so far.
    pub closed spec fn bytes(&self) -> Seq<u8> {
        self.buf.bytes()
    }

    /// Whether an escape byte was read and awaits its partner.
    pub closed spec fn escaping(&self) -> bool {
        self.is_escaping
    }

    /// Whether the invariant of the value holds.
    pub closed spec fn wf(&self) -> bool {
        self.buf.wf()
    }

    /// A decoder with nothing read.
    pub fn new() -> (r: Self)
        ensures
            r.wf(),
            r.bytes() == Seq::<u8>::empty(),
            !r.escaping(),
    {
        Self { buf: BasicBuffer::new(), is_escaping: false }
    }

    /// Drops what was decoded and any pending escape.
    pub fn reset(&mut self)
        requires
            old(self).wf(),
        ensures
            final(self).wf(),
            final(self).bytes() == Seq::<u8>::empty(),
            !final(self).escaping(),
    {
        self.is_escaping = false;
        self.buf.reset();
    }

    /// The bytes decoded so far.
    pub fn slice(&self) -> (r: &[u8])
        ensures
            r@ == self.bytes(),
    {
        self.buf.slice()
    }

    /// Reads `input` until a frame terminator, the end of the input or a
    /// failure. Returns the count of bytes consumed and whether a frame
    /// ended; a failure reports the count consumed with the offending byte.
    pub fn feed(&mut self, input: &[u8]) -> (r: Result<(usize, bool), SlipError>)
        requires
            old(self).wf(),
        ensures
            final(self).wf(),
            ({
                let t = decode_run(decode_start(old(self).bytes(), old(self).escaping()), input@, CAPACITY as nat);
                &&& final(self).bytes() == t.acc
                &&& final(self).escaping() == t.esc
                &&& match t.status {
                    DecodeStatus::Running => r == Ok::<(usize, bool), SlipError>((input@.len() as usize, false)),
                    DecodeStatus::Ended => r == Ok::<(usize, bool), SlipError>((t.used as usize, true)),
                    DecodeStatus::Failed(code) => r == Err::<(usize, bool), SlipError>(SlipError { pos: t.used as usize, code }),
                }
            }),
    {
        let ghost s0 = decode_start(self.bytes(), self.escaping());
        let mut i: usize = 0;
        while i < input.len()
            invariant
                self.wf(),
                i <= input@.len(),
                s0 == decode_start(old(self).bytes(), old(self).escaping()),
                decode_run(s0, input@.subrange(0, i as int), CAPACITY as nat) == (DecodeState {
                    acc: self.bytes(),
                    esc: self.escaping(),
                    status: DecodeStatus::Running,
                    used: i as nat,
                }),
            decreases input@.len() - i,
        {
            let c = input[i];
            i += 1;
            let ghost pre = input@.subrange(0, i - 1);
            assert(input@.subrange(0, i as int).drop_last() =~= pre);
            let ghost st = DecodeState {
                acc: self.bytes(),
                esc: self.escaping(),
                status: DecodeStatus::Running,
                used: (i - 1) as nat,
            };
            let ghost after = decode_run(s0, input@.subrange(0, i as int), CAPACITY as nat);
            assert(after == decode_step(st, c, CAPACITY as nat));
            if i < input.len() {
                proof {
                    lemma_decode_concat(s0, input@.subrange(0, i as int), input@.subrange(i as int, input@.len() as int), CAPACITY as nat);
                    assert(input@.subrange(0, i as int) + input@.subrange(i as int, input@.len() as int) =~= input@);
                }
            } else {
                assert(input@.subrange(0, i as int) =~= input@);
            }
            if self.is_escaping {
                self.is_escaping = false;
                if c == ESC_END {
                    match self.buf.put(END) {
                        Ok(_) => {},
                        Err(code) => {
                            proof { lemma_decode_stopped(after, input@.subrange(i as int, input@.len() as int), CAPACITY as nat); }
                            return Err(SlipError { pos: i, code: code });
                        },
                    }
                } else if c == ESC_ESC {
                    match self.buf.put(ESC) {
                        Ok(_) => {},
                        Err(code) => {
                            proof { lemma_decode_stopped(after, input@.subrange(i as int, input@.len() as int), CAPACITY as nat); }
                            return Err(SlipError { pos: i, code: code });
                        },
                    }
                } else {
                    proof { lemma_decode_stopped(after, input@.subrange(i as int, input@.len() as int), CAPACITY as nat); }
                    return Err(SlipError { pos: i, code: SlipErrorCode::BadEsc });
                }
            } else {
                if c == END {
                    proof { lemma_decode_stopped(after, input@.subrange(i as int, input@.len() as int), CAPACITY as nat); }
                    return Ok((i, true));
                } else if c == ESC {
                    self.is_escaping = true;
                } else {
                    match self.buf.put(c) {
                        Ok(_) => {},
                        Err(code) => {
                            proof { lemma_decode_stopped(after, input@.subrange(i as int, input@.len() as int), CAPACITY as nat); }
                            return Err(SlipError { pos: i, code: code });
                        },
                    }
                }
            }
        }
        assert(input@.subrange(0, i as int) =~= input@);
        Ok((i, false))
    }
}


/// The state of an encoder over one `feed` call: the stuffed bytes, whether
/// the buffer filled up, and how many input bytes were consumed.
pub struct EncodeState {
    pub acc: Seq<u8>,
    pub failed: bool,
    pub used: nat,
}

/// The effect of one input byte on an encoder that has not failed: its
/// stuffed form is appended, byte by byte, until the buffer is full.
pub open spec fn encode_step(s: EncodeState, c: u8, cap: nat) -> EncodeState {
    let s = EncodeState { used: s.used + 1, ..s };
    let out = escape_byte(c);
    if s.acc.len() + out.len() <= cap {
        EncodeState { acc: s.acc + out, ..s }
    } else if s.acc.len() < cap {
        EncodeState { acc: s.acc.push(out[0]), failed: true, ..s }
    } else {
        EncodeState { failed: true, ..s }
    }
}

/// The state after stuffing `input` from `s`, stopping at the first failure.
pub open spec fn encode_run(s: EncodeState, input: Seq<u8>, cap: nat) -> EncodeState
    decreases input.len(),
{
    if input.len() == 0 {
        s
    } else {
        let t = encode_run(s, input.drop_last(), cap);
        if t.failed {
            t
        } else {
            encode_step(t, input.last(), cap)
        }
    }
}

/// A fresh encoder state holding `acc`.
pub open spec fn encode_start(acc: Seq<u8>) -> EncodeState {
    EncodeState { acc, failed: false, used: 0 }
}

/// Stuffing succeeds exactly when the stuffed bytes fit, and then appends them.
pub proof fn lemma_encode_fits(acc: Seq<u8>, input: Seq<u8>, cap: nat)
    requires
        acc.len() <= cap,
    ensures
        !encode_run(encode_start(acc), input, cap).failed <==> acc.len() + slip_escape(input).len() <= cap,
        acc.len() + slip_escape(input).len() <= cap ==> encode_run(encode_start(acc), input, cap) == (EncodeState {
            acc: acc + slip_escape(input),
            failed: false,
            used: input.len(),
        }),
    decreases input.len(),
{
    if input.len() == 0 {
        assert(acc + slip_escape(input) =~= acc);
    } else {
        lemma_encode_fits(acc, input.drop_last(), cap);
        let t = encode_run(encode_start(acc), input.drop_last(), cap);
        assert(slip_escape(input).len() == slip_escape(input.drop_last()).len() + escape_byte(input.last()).len());
        if !t.failed {
            assert(t.acc.len() == acc.len() + slip_escape(input.drop_last()).len());
        }
        assert(acc + slip_escape(input.drop_last()) + escape_byte(input.last()) =~= acc + slip_escape(input));
    }
}

/// SLIP encoder: stuffs bytes into a buffer and terminates frames.
pub struct Encoder<const CAPACITY: usize> {
    buf: BasicBuffer<CAPACITY>,
}

impl<const CAPACITY: usize> Encoder<CAPACITY> {
    /// The bytes written so far.
    pub closed spec fn bytes(&self) -> Seq<u8> {
        self.buf.bytes()
    }

    /// Whether the invariant of the value holds.
    pub closed spec fn wf(&self) -> bool {
        self.buf.wf()
    }

    /// An encoder with nothing written.
    pub fn new() -> (r: Self)
        ensures
            r.wf(),
            r.bytes() == Seq::<u8>::empty(),
    {
        Self { buf: BasicBuffer::new() }
    }

    /// Drops what was written.
    pub fn reset(&mut self)
        requires
            old(self).wf(),
        ensures
            final(self).wf(),
            final(self).bytes() == Seq::<u8>::empty(),
    {
        self.buf.reset();
    }

    /// The bytes written so far.
    pub fn slice(&self) -> (r: &[u8])
        ensures
            r@ == self.bytes(),
    {
        self.buf.slice()
    }

    /// Appends the stuffed form of `input`. Succeeds with the input length
    /// exactly when it all fits; otherwise reports `BufferFull` with the count
    /// of bytes consumed, the one that did not fit included.
    pub fn feed(&mut self, input: &[u8]) -> (r: Result<usize, SlipError>)
        requires
            old(self).wf(),
        ensures
            final(self).wf(),
            r is Ok <==> old(self).bytes().len() + slip_escape(input@).len() <= CAPACITY,
            r is Ok ==> r == Ok::<usize, SlipError>(input@.len() as usize)
                && final(self).bytes() == old(self).bytes() + slip_escape(input@),
            ({
                let t = encode_run(encode_start(old(self).bytes()), input@, CAPACITY as nat);
                &&& final(self).bytes() == t.acc
                &&& t.failed ==> r == Err::<usize, SlipError>(SlipError { pos: t.used as usize, code: SlipErrorCode::BufferFull })
            }),
    {
        let ghost s0 = encode_start(self.bytes());
        proof { lemma_encode_fits(self.bytes(), input@, CAPACITY as nat); }
        let mut i: usize = 0;
        while i < input.len()
            invariant
                self.wf(),
                i <= input@.len(),
                s0 == encode_start(old(self).bytes()),
                !encode_run(s0, input@, CAPACITY as nat).failed <==> old(self).bytes().len() + slip_escape(input@).len() <= CAPACITY,
                encode_run(s0, input@.subrange(0, i as int), CAPACITY as nat) == (EncodeState {
                    acc: self.bytes(),
                    failed: false,
                    used: i as nat,
                }),
            decreases input@.len() - i,
        {
            let c = input[i];
            i += 1;
            let ghost st = EncodeState { acc: self.bytes(), failed: false, used: (i - 1) as nat };
            let ghost pre = input@.subrange(0, i - 1);
            assert(input@.subrange(0, i as int).drop_last() =~= pre);
            let ghost after = encode_run(s0, input@.subrange(0, i as int), CAPACITY as nat);
            assert(after == encode_step(st, c, CAPACITY as nat));
            if i < input.len() {
                proof {
                    lemma_encode_concat(s0, input@.subrange(0, i as int), input@.subrange(i as int, input@.len() as int), CAPACITY as nat);
                    assert(input@.subrange(0, i as int) + input@.subrange(i as int, input@.len() as int) =~= input@);
                }
            } else {
                assert(input@.subrange(0, i as int) =~= input@);
            }
            if c == END || c == ESC {
                let second = if c == END { ESC_END } else { ESC_ESC };
                match self.buf.put(ESC) {
                    Ok(_) => {},
                    Err(code) => {
                        proof { lemma_encode_stopped(after, input@.subrange(i as int, input@.len() as int), CAPACITY as nat); }
                        return Err(SlipError { pos: i, code: code });
                    },
                }
                match self.buf.put(second) {
                    Ok(_) => {},
                    Err(code) => {
                        proof { lemma_encode_stopped(after, input@.subrange(i as int, input@.len() as int), CAPACITY as nat); }
                        return Err(SlipError { pos: i, code: code });
                    },
                }
                assert(self.bytes() =~= st.acc + escape_byte(c));
            } else {
                match self.buf.put(c) {
                    Ok(_) => {},
                    Err(code) => {
                        proof { lemma_encode_stopped(after, input@.subrange(i as int, input@.len() as int), CAPACITY as nat); }
                        return Err(SlipError { pos: i, code: code });
                    },
                }
                assert(self.bytes() =~= st.acc + escape_byte(c));
            }
        }
        assert(input@.subrange(0, i as int) =~= input@);
        Ok(i)
    }

    /// Appends the frame terminator; `BufferFull`, with nothing written,
    /// when the buffer is full.
    pub fn finish(&mut self) -> (r: Result<(), SlipErrorCode>)
        requires
            old(self).wf(),
        ensures
            final(self).wf(),
            old(self).bytes().len() < CAPACITY ==> r is Ok && final(self).bytes() == old(self).bytes().push(END),
            old(self).bytes().len() >= CAPACITY ==> r == Err::<(), SlipErrorCode>(SlipErrorCode::BufferFull)
                && final(self).bytes() == old(self).bytes(),
    {
        self.buf.put(END)
    }
}

/// An encoder that failed stays where it failed.
pub proof fn lemma_encode_stopped(s: EncodeState, input: Seq<u8>, cap: nat)
    requires
        s.failed,
    ensures
        encode_run(s, input, cap) == s,
    decreases input.len(),
{
    if input.len() > 0 {
        lemma_encode_stopped(s, input.drop_last(), cap);
    }
}

/// Stuffing `p + q` is stuffing `p`, then `q`.
pub proof fn lemma_encode_concat(s: EncodeState, p: Seq<u8>, q: Seq<u8>, cap: nat)
    ensures
        encode_run(s, p + q, cap) == encode_run(encode_run(s, p, cap), q, cap),
    decreases q.len(),
{
    if q.len() == 0 {
        assert(p + q =~= p);
    } else {
        assert((p + q).drop_last() =~= p + q.drop_last());
        lemma_encode_concat(s, p, q.drop_last(), cap);
    }
}


/// Reading the stuffed form of `bytes` appends exactly `bytes`, when they fit.
pub proof fn lemma_decode_escaped(acc: Seq<u8>, bytes: Seq<u8>, cap: nat)
    requires
        acc.len() + bytes.len() <= cap,
    ensures
        decode_run(decode_start(acc, false), slip_escape(bytes), cap) == (DecodeState {
            acc: acc + bytes,
            esc: false,
            status: DecodeStatus::Running,
            used: slip_escape(bytes).len(),
        }),
    decreases bytes.len(),
{
    if bytes.len() == 0 {
        assert(acc + bytes =~= acc);
    } else {
        let prev = bytes.drop_last();
        let c = bytes.last();
        lemma_decode_escaped(acc, prev, cap);
        lemma_decode_concat(decode_start(acc, false), slip_escape(prev), escape_byte(c), cap);
        reveal_with_fuel(decode_run, 3);
        assert(acc + prev + seq![c] =~= acc + bytes);
        if c == END || c == ESC {
            let e = escape_byte(c);
            assert(e.drop_last() =~= seq![ESC]);
            assert(seq![ESC].drop_last() =~= Seq::<u8>::empty());
            assert((acc + prev).push(c) =~= acc + bytes);
        } else {
            assert(escape_byte(c).drop_last() =~= Seq::<u8>::empty());
            assert((acc + prev).push(c) =~= acc + bytes);
        }
    }
}

/// Decoding the stuffed form of any bytes, then a terminator, gives the
/// bytes back and ends the frame, whatever the bytes hold.
pub proof fn lemma_slip_round_trip(bytes: Seq<u8>, cap: nat)
    requires
        bytes.len() <= cap,
    ensures
        decode_run(decode_start(Seq::empty(), false), slip_escape(bytes).push(END), cap) == (DecodeState {
            acc: bytes,
            esc: false,
            status: DecodeStatus::Ended,
            used: slip_escape(bytes).len() + 1,
        }),
{
    let empty = Seq::<u8>::empty();
    lemma_decode_escaped(empty, bytes, cap);
    assert(empty + bytes =~= bytes);
    assert(slip_escape(bytes).push(END) =~= slip_escape(bytes) + seq![END]);
    lemma_decode_concat(decode_start(empty, false), slip_escape(bytes), seq![END], cap);
    reveal_with_fuel(decode_run, 2);
    assert(seq![END].drop_last() =~= Seq::<u8>::empty());
}

/// An escape byte followed by any byte other than `ESC_END` or `ESC_ESC`
/// makes a running decoder fail with `BadEsc`.
pub proof fn lemma_bad_escape(s: DecodeState, b: u8, cap: nat)
    requires
        s.status is Running,
        !s.esc,
        b != ESC_END,
        b != ESC_ESC,
    ensures
        decode_run(s, seq![ESC, b], cap).status == DecodeStatus::Failed(SlipErrorCode::BadEsc),
{
    reveal_with_fuel(decode_run, 3);
    assert(seq![ESC, b].drop_last() =~= seq![ESC]);
    assert(seq![ESC].drop_last() =~= Seq::<u8>::empty());
}

} // verus!
