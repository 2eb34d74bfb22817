use vstd::prelude::*;

use super::function::{function_code, function_of_code, Function};
use crate::bytes::{be_u16, u16_from_be};

verus! {

/// First byte of every telegram.
pub const LEADIN: u8 = 0x41;

/// Resets the connection to the state in which the controller sends `SYNC`.
pub const RESET: u8 = 0x04;

/// Sent by the controller while it waits for the start of the protocol.
pub const SYNC: u8 = 0x05;

/// Acknowledges a telegram.
pub const ACK: u8 = 0x06;

/// Rejects a telegram.
pub const NACK: u8 = 0x15;

/// The bytes that start the protocol.
pub fn start_bytes() -> (res: [u8; 3])
    ensures
        res@ == seq![0x16u8, 0x00u8, 0x00u8],
{
    [0x16, 0x00, 0x00]
}

/// The kind of a telegram.
#[derive(Debug, Clone, Copy, PartialEq, Eq, Structural)]
pub enum MessageType {
    Request,
    Response,
    Unacknowledged,
    Error,
}

/// The byte of a message type.
pub open spec fn message_type_code(t: MessageType) -> u8 {
    match t {
        MessageType::Request => 0,
        MessageType::Response => 1,
        MessageType::Unacknowledged => 2,
        MessageType::Error => 3,
    }
}

/// The message type that a byte names, if any.
pub open spec fn message_type_of_code(b: u8) -> Option<MessageType> {
    match b {
        0 => Some(MessageType::Request),
        1 => Some(MessageType::Response),
        2 => Some(MessageType::Unacknowledged),
        3 => Some(MessageType::Error),
        _ => None,
    }
}

impl MessageType {
    /// The byte of the message type.
    pub fn code(self) -> (res: u8)
        ensures
            res == message_type_code(self),
    {
        match self {
            MessageType::Request => 0,
            MessageType::Response => 1,
            MessageType::Unacknowledged => 2,
            MessageType::Error => 3,
        }
    }

    /// The message type that a byte names, if any.
    pub fn from_code(b: u8) -> (res: Option<Self>)
        ensures
            res == message_type_of_code(b),
    {
        match b {
            0 => Some(MessageType::Request),
            1 => Some(MessageType::Response),
            2 => Some(MessageType::Unacknowledged),
            3 => Some(MessageType::Error),
            _ => None,
        }
    }

    /// The name of the message type.
    pub fn name(self) -> (res: &'static str)
        ensures
            res@ == (match self {
                MessageType::Request => "request"@,
                MessageType::Response => "response"@,
                MessageType::Unacknowledged => "unacknowledged"@,
                MessageType::Error => "error"@,
            }),
    {
        match self {
            Self::Request => "request",
            Self::Response => "response",
            Self::Unacknowledged => "unacknowledged",
            Self::Error => "error",
        }
    }
}

/// The header of a telegram.
#[derive(Debug, Clone, Copy, PartialEq, Eq, Structural)]
pub struct Header {
    pub message_type: MessageType,
    pub function: Function,
    pub addr: u16,
    pub payload_len: u8,
}

/// Why a telegram was refused.
#[derive(Debug, Clone, Copy, PartialEq, Eq, Structural)]
pub enum TelegramError {
    /// The first byte is not `LEADIN`.
    LeadinExpected,
    /// The checksum byte differs from the sum of the message bytes.
    InvalidChecksum { computed: u8, received: u8 },
    /// The message type byte names no message type.
    UnknownMessageType(u8),
    /// The function byte names no function.
    UnknownFunction(u8),
    /// The payload length byte does not fit the message length.
    PayloadLengthMismatch { message_len: u8, payload_len: u8 },
    /// The payload has another length than the one asked for.
    InvalidPayloadLength { expected: usize, actual: u8 },
    /// A telegram without payload whose message length is not 5.
    InvalidMessageLength(u8),
    /// A reply that is not a response.
    UnexpectedMessageType(MessageType),
    /// A reply for another function.
    UnexpectedFunction { expected: Function, actual: Function },
    /// A reply for another address.
    UnexpectedAddress { expected: u16, actual: u16 },
    /// A reply to a read with another number of bytes.
    UnexpectedReadLength { expected: usize, actual: usize },
    /// A reply to a write with another number of bytes.
    UnexpectedWriteLength { expected: usize, actual: usize },
    /// The controller answered a telegram with neither `ACK` nor `NACK`.
    SendFailed,
    /// The controller answered the start of the protocol with neither `ACK` nor `NACK`.
    NegotiationFailed,
    /// Another byte came where `SYNC` was expected.
    SyncExpected(u8),
}

/// Sum of bytes.
pub open spec fn byte_sum(s: Seq<u8>) -> nat
    decreases s.len(),
{
    if s.len() == 0 {
        0
    } else {
        byte_sum(s.drop_last()) + s.last() as nat
    }
}

/// The sum of bytes, wrapping around at 256.
pub fn wrapping_sum(bytes: &[u8]) -> (res: u8)
    ensures
        res == byte_sum(bytes@) % 256,
{
    let mut acc: u8 = 0;
    let mut i: usize = 0;
    while i < bytes.len()
        invariant
            i <= bytes@.len(),
            acc == byte_sum(bytes@.take(i as int)) % 256,
        decreases bytes@.len() - i,
    {
        proof {
            assert(bytes@.take(i + 1).drop_last() =~= bytes@.take(i as int));
            vstd::arithmetic::div_mod::lemma_add_mod_noop(
                byte_sum(bytes@.take(i as int)) as int,
                bytes@[i as int] as int,
                256,
            );
        }
        acc = ((acc as u16 + bytes[i] as u16) % 256) as u8;
        i = i + 1;
    }
    assert(bytes@.take(i as int) =~= bytes@);
    acc
}

/// The bytes of a telegram between the lead-in and the checksum: message
/// length, message type, function, address (high byte first), payload
/// length, then the payload. Without a payload the payload length is the
/// header's, the number of bytes asked for.
pub open spec fn telegram_body(h: Header, payload: Option<Seq<u8>>) -> Seq<u8> {
    let message_len: int = match payload {
        Some(p) => 5 + p.len() as int,
        None => 5,
    };
    let payload_len: int = match payload {
        Some(p) => p.len() as int,
        None => h.payload_len as int,
    };
    seq![
        message_len as u8,
        message_type_code(h.message_type),
        function_code(h.function),
        (h.addr / 256) as u8,
        (h.addr % 256) as u8,
        payload_len as u8,
    ] + match payload {
        Some(p) => p,
        None => Seq::<u8>::empty(),
    }
}

/// A telegram: the lead-in, the body and the sum of the body's bytes.
pub open spec fn telegram(h: Header, payload: Option<Seq<u8>>) -> Seq<u8> {
    seq![LEADIN] + telegram_body(h, payload) + seq![(byte_sum(telegram_body(h, payload)) % 256) as u8]
}

/// Byte `i` of a received telegram, or 0 past its end (the rest of the
/// zeroed receive buffer).
pub open spec fn frame_at(f: Seq<u8>, i: int) -> u8 {
    if 0 <= i < f.len() {
        f[i]
    } else {
        0
    }
}

/// Received telegrams: the lead-in, the message length, as many message
/// bytes as it says, and the checksum.
pub open spec fn frame_complete(f: Seq<u8>) -> bool {
    f.len() >= 3 && f.len() == f[1] + 3
}

/// The check of a received telegram's lead-in and checksum.
pub open spec fn frame_check(f: Seq<u8>) -> Result<(), TelegramError> {
    let computed = (byte_sum(f.subrange(1, f.len() - 1)) % 256) as u8;
    let received = f[f.len() - 1];
    if f[0] != LEADIN {
        Err(TelegramError::LeadinExpected)
    } else if computed != received {
        Err(TelegramError::InvalidChecksum { computed, received })
    } else {
        Ok(())
    }
}

/// What a received telegram holds: its header and its payload, where one of
/// `expected` bytes was asked for, or the error.
pub open spec fn frame_parse(f: Seq<u8>, expected: Option<usize>) -> Result<
    (Header, Seq<u8>),
    TelegramError,
> {
    let message_len = f[1];
    let payload_len = frame_at(f, 6);
    match message_type_of_code(f[2]) {
        None => Err(TelegramError::UnknownMessageType(f[2])),
        Some(message_type) => match function_of_code(frame_at(f, 3)) {
            None => Err(TelegramError::UnknownFunction(frame_at(f, 3))),
            Some(function) => {
                let header = Header {
                    message_type,
                    function,
                    addr: be_u16(frame_at(f, 4), frame_at(f, 5)),
                    payload_len,
                };
                match expected {
                    Some(n) => if payload_len != message_len - 5 {
                        Err(TelegramError::PayloadLengthMismatch { message_len, payload_len })
                    } else if n != payload_len {
                        Err(TelegramError::InvalidPayloadLength { expected: n, actual: payload_len })
                    } else {
                        Ok((header, f.subrange(7, 7 + n)))
                    },
                    None => if message_len != 5 {
                        Err(TelegramError::InvalidMessageLength(message_len))
                    } else {
                        Ok((header, Seq::<u8>::empty()))
                    },
                }
            },
        },
    }
}

/// What the controller's answer to a telegram or to the start of the
/// protocol calls for.
#[derive(Debug, Clone, Copy, PartialEq, Eq, Structural)]
pub enum StatusAction {
    /// `ACK`: the telegram was accepted.
    Done,
    /// `NACK`: start the protocol again and repeat.
    Retry,
    /// Any other byte: give up.
    Fail,
}

/// The action for a status byte.
pub open spec fn status_action_of(status: u8) -> StatusAction {
    if status == ACK {
        StatusAction::Done
    } else if status == NACK {
        StatusAction::Retry
    } else {
        StatusAction::Fail
    }
}

/// The checks on a reply to a request: a response, for the function and the
/// address of the request.
pub open spec fn response_check(header: Header, function: Function, addr: u16) -> Result<(), TelegramError> {
    if header.message_type != MessageType::Response {
        Err(TelegramError::UnexpectedMessageType(header.message_type))
    } else if header.function != function {
        Err(TelegramError::UnexpectedFunction { expected: function, actual: header.function })
    } else if header.addr != addr {
        Err(TelegramError::UnexpectedAddress { expected: addr, actual: header.addr })
    } else {
        Ok(())
    }
}

/// The header of a request to read `len` bytes at an address.
pub open spec fn read_request_header(addr: u16, len: int) -> Header {
    Header {
        message_type: MessageType::Request,
        function: Function::VirtualRead,
        addr,
        payload_len: len as u8,
    }
}

/// The header of a request to write `len` bytes at an address.
pub open spec fn write_request_header(addr: u16, len: int) -> Header {
    Header {
        message_type: MessageType::Request,
        function: Function::VirtualWrite,
        addr,
        payload_len: len as u8,
    }
}

/// The VS2 protocol (also known as KW2 or 300).
#[derive(Debug)]
pub struct Vs2;

impl Vs2 {
    /// The bytes of a telegram with a header and, where given, a payload.
    pub fn encode_telegram(header: &Header, payload: Option<&[u8]>) -> (res: Vec<u8>)
        requires
            payload matches Some(p) ==> p@.len() <= 250,
        ensures
            res@ == telegram(
                *header,
                match payload {
                    Some(p) => Some(p@),
                    None => None,
                },
            ),
    {
        let ghost pl = match payload {
            Some(p) => Some(p@),
            None => None::<Seq<u8>>,
        };
        let addr_hi = (header.addr / 256) as u8;
        let addr_lo = (header.addr % 256) as u8;
        let mut buffer: Vec<u8> = Vec::new();
        buffer.push(LEADIN);
        match payload {
            Some(p) => {
                buffer.push(5 + p.len() as u8);
                buffer.push(header.message_type.code());
                buffer.push(header.function.code());
                buffer.push(addr_hi);
                buffer.push(addr_lo);
                buffer.push(p.len() as u8);
                let mut i: usize = 0;
                while i < p.len()
                    invariant
                        i <= p@.len(),
                        p@.len() <= 250,
                        buffer@ == seq![LEADIN] + telegram_body(*header, pl).take(6 + i),
                        pl == Some(p@),
                    decreases p@.len() - i,
                {
                    buffer.push(p[i]);
                    i = i + 1;
                    assert(buffer@ =~= seq![LEADIN] + telegram_body(*header, pl).take(6 + i));
                }
            },
            None => {
                buffer.push(5);
                buffer.push(header.message_type.code());
                buffer.push(header.function.code());
                buffer.push(addr_hi);
                buffer.push(addr_lo);
                buffer.push(header.payload_len);
            },
        }
        assert(buffer@ =~= seq![LEADIN] + telegram_body(*header, pl));
        let checksum = wrapping_sum(&buffer.as_slice()[1..buffer.len()]);
        assert(buffer@.subrange(1, buffer@.len() as int) =~= telegram_body(*header, pl));
        buffer.push(checksum);
        assert(buffer@ =~= telegram(*header, pl));
        buffer
    }

    /// The telegram that asks to read `len` bytes at an address.
    pub fn read_request(addr: u16, len: usize) -> (res: Vec<u8>)
        requires
            len <= 255,
        ensures
            res@ == telegram(read_request_header(addr, len as int), None),
    {
        let header = Header {
            message_type: MessageType::Request,
            function: Function::VirtualRead,
            addr,
            payload_len: len as u8,
        };
        Self::encode_telegram(&header, None)
    }

    /// The telegram that asks to write a value at an address.
    pub fn write_request(addr: u16, value: &[u8]) -> (res: Vec<u8>)
        requires
            value@.len() <= 250,
        ensures
            res@ == telegram(write_request_header(addr, value@.len() as int), Some(value@)),
    {
        let header = Header {
            message_type: MessageType::Request,
            function: Function::VirtualWrite,
            addr,
            payload_len: value.len() as u8,
        };
        Self::encode_telegram(&header, Some(value))
    }

    /// Checks the lead-in and the checksum of a received telegram; the
    /// controller is to be answered with `ACK` where this succeeds and with
    /// `NACK` where the checksum is wrong.
    pub fn check_frame(frame: &[u8]) -> (res: Result<(), TelegramError>)
        requires
            frame_complete(frame@),
        ensures
            res == frame_check(frame@),
    {
        let len = frame.len();
        let computed = wrapping_sum(&frame[1..len - 1]);
        let received = frame[len - 1];
        if frame[0] != LEADIN {
            Err(TelegramError::LeadinExpected)
        } else if computed != received {
            Err(TelegramError::InvalidChecksum { computed, received })
        } else {
            Ok(())
        }
    }

    /// Reads header and payload of a received telegram; `expected` is the
    /// number of bytes asked for where a payload is expected.
    pub fn parse_frame(frame: &[u8], expected: Option<usize>) -> (res: Result<(Header, Vec<u8>), TelegramError>)
        requires
            frame_complete(frame@),
            expected is Some ==> frame@[1] >= 5,
        ensures
            match (res, frame_parse(frame@, expected)) {
                (Ok((h, p)), Ok((sh, sp))) => h == sh && p@ == sp,
                (Err(e), Err(se)) => e == se,
                _ => false,
            },
    {
        let len = frame.len();
        let at3 = if len > 3 {
            frame[3]
        } else {
            0
        };
        let at4 = if len > 4 {
            frame[4]
        } else {
            0
        };
        let at5 = if len > 5 {
            frame[5]
        } else {
            0
        };
        let at6 = if len > 6 {
            frame[6]
        } else {
            0
        };
        let message_len = frame[1];
        let message_type = match MessageType::from_code(frame[2]) {
            Some(t) => t,
            None => return Err(TelegramError::UnknownMessageType(frame[2])),
        };
        let function = match Function::from_code(at3) {
            Some(f) => f,
            None => return Err(TelegramError::UnknownFunction(at3)),
        };
        let addr = u16_from_be(at4, at5);
        let payload_len = at6;
        let header = Header { message_type, function, addr, payload_len };
        match expected {
            Some(n) => {
                if payload_len != message_len - 5 {
                    return Err(TelegramError::PayloadLengthMismatch { message_len, payload_len });
                }
                if n != payload_len as usize {
                    return Err(TelegramError::InvalidPayloadLength { expected: n, actual: payload_len });
                }
                let payload = vstd::slice::slice_to_vec(&frame[7..(7 + n)]);
                Ok((header, payload))
            },
            None => {
                if message_len != 5 {
                    return Err(TelegramError::InvalidMessageLength(message_len));
                }
                Ok((header, Vec::new()))
            },
        }
    }

    /// What the controller's answer to a telegram or to the start of the
    /// protocol calls for.
    pub fn status_action(status: u8) -> (res: StatusAction)
        ensures
            res == status_action_of(status),
    {
        if status == ACK {
            StatusAction::Done
        } else if status == NACK {
            StatusAction::Retry
        } else {
            StatusAction::Fail
        }
    }

    /// Checks that a byte read while waiting for the protocol's start is `SYNC`.
    pub fn check_sync(status: u8) -> (res: Result<(), TelegramError>)
        ensures
            res == (if status == SYNC {
                Ok::<(), TelegramError>(())
            } else {
                Err(TelegramError::SyncExpected(status))
            }),
    {
        if status == SYNC {
            Ok(())
        } else {
            Err(TelegramError::SyncExpected(status))
        }
    }

    /// Checks that a reply is a response for the function and the address of the request.
    pub fn check_response(header: &Header, function: Function, addr: u16) -> (res: Result<(), TelegramError>)
        ensures
            res == response_check(*header, function, addr),
    {
        if header.message_type != MessageType::Response {
            return Err(TelegramError::UnexpectedMessageType(header.message_type));
        }
        if header.function != function {
            return Err(TelegramError::UnexpectedFunction { expected: function, actual: header.function });
        }
        if header.addr != addr {
            return Err(TelegramError::UnexpectedAddress { expected: addr, actual: header.addr });
        }
        Ok(())
    }

    /// Checks the reply to a request to read `len` bytes at an address.
    pub fn check_read_response(header: &Header, addr: u16, len: usize) -> (res: Result<(), TelegramError>)
        ensures
            res == (match response_check(*header, Function::VirtualRead, addr) {
                Err(e) => Err(e),
                Ok(()) => if header.payload_len as usize != len {
                    Err(TelegramError::UnexpectedReadLength { expected: len, actual: header.payload_len as usize })
                } else {
                    Ok(())
                },
            }),
    {
        Self::check_response(header, Function::VirtualRead, addr)?;
        let actual_len = header.payload_len as usize;
        if actual_len != len {
            return Err(TelegramError::UnexpectedReadLength { expected: len, actual: actual_len });
        }
        Ok(())
    }

    /// Checks the reply to a request to write `len` bytes at an address.
    pub fn check_write_response(header: &Header, addr: u16, len: usize) -> (res: Result<(), TelegramError>)
        ensures
            res == (match response_check(*header, Function::VirtualWrite, addr) {
                Err(e) => Err(e),
                Ok(()) => if header.payload_len as usize != len {
                    Err(TelegramError::UnexpectedWriteLength { expected: len, actual: header.payload_len as usize })
                } else {
                    Ok(())
                },
            }),
    {
        Self::check_response(header, Function::VirtualWrite, addr)?;
        let actual_len = header.payload_len as usize;
        if actual_len != len {
            return Err(TelegramError::UnexpectedWriteLength { expected: len, actual: actual_len });
        }
        Ok(())
    }
}

/// A telegram that the library writes passes the checks of a received
/// telegram, and reading it gives back its header and payload; the payload
/// length in the header is that of the payload where there is one.
pub proof fn lemma_telegram_roundtrip(h: Header, payload: Option<Seq<u8>>)
    requires
        payload matches Some(p) ==> p.len() <= 250,
    ensures
        frame_complete(telegram(h, payload)),
        frame_check(telegram(h, payload)) == Ok::<(), TelegramError>(()),
        payload is Some ==> telegram(h, payload)[1] >= 5,
        frame_parse(
            telegram(h, payload),
            match payload {
                Some(p) => Some(p.len() as usize),
                None => None,
            },
        ) == Ok::<(Header, Seq<u8>), TelegramError>(
            (
                match payload {
                    Some(p) => Header { payload_len: p.len() as u8, ..h },
                    None => h,
                },
                match payload {
                    Some(p) => p,
                    None => Seq::<u8>::empty(),
                },
            ),
        ),
{
    let body = telegram_body(h, payload);
    let f = telegram(h, payload);
    assert(f.subrange(1, f.len() - 1) =~= body);
    super::function::lemma_function_code_roundtrip(h.function);
    assert(message_type_of_code(message_type_code(h.message_type)) == Some(h.message_type));
    crate::bytes::lemma_be_u16_split(h.addr);
    if let Some(p) = payload {
        assert(f.subrange(7, 7 + p.len() as int) =~= p);
    }
}

/// The byte of a message type names it, and a byte that names a message
/// type is its byte.
pub proof fn lemma_message_type_code_roundtrip(t: MessageType, b: u8)
    ensures
        message_type_of_code(message_type_code(t)) == Some(t),
        message_type_of_code(b) matches Some(u) ==> message_type_code(u) == b,
{
}

} // verus!
