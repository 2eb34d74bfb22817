use vstd::prelude::*;

use super::vs2::byte_sum;

verus! {

/// First byte of every telegram.
pub const LEADIN: u8 = 0x41;

/// Marks a request.
pub const REQUEST: u8 = 0x00;

/// Marks a response.
pub const RESPONSE: u8 = 0x01;

/// Asks to read data.
pub const READDATA: u8 = 0x01;

/// Asks to write data.
pub const WRITEDATA: u8 = 0x02;

/// Why a response of the P300 protocol was refused.
#[derive(Debug, Clone, Copy, PartialEq, Eq, Structural)]
pub enum P300Error {
    /// The response has another length than a response to the request.
    UnexpectedResponseLength,
    /// The response to a read does not start with `RESPONSE` and `READDATA`.
    InvalidReadResponse,
    /// The response to a write does not start with `RESPONSE` and `WRITEDATA`.
    InvalidWriteResponse,
    /// The response is for another address.
    WrongAddress,
    /// The response to a read reports another length.
    WrongDataLength,
    /// The response to a write reports another length.
    CouldNotWrite,
}

/// The checksum of a message: the sum of its bytes and of its length.
pub open spec fn p300_checksum(message: Seq<u8>) -> int {
    (byte_sum(message) + message.len() % 256) as int
}

/// Messages whose checksum fits a byte; for others the sum overflows.
pub open spec fn p300_checksum_fits(message: Seq<u8>) -> bool {
    p300_checksum(message) <= 255
}

/// A telegram: the lead-in, the message length, the message and the checksum.
pub open spec fn p300_telegram(message: Seq<u8>) -> Seq<u8> {
    seq![LEADIN, (message.len() % 256) as u8] + message + seq![p300_checksum(message) as u8]
}

/// A request: request marker, the kind of access, the address (high byte
/// first), the length (its low byte), then the value to write.
pub open spec fn p300_request(access: u8, addr: u16, len: int, value: Seq<u8>) -> Seq<u8> {
    seq![REQUEST, access, (addr / 256) as u8, (addr % 256) as u8, (len % 256) as u8] + value
}

/// The checks on the response to a read of `len` bytes, and the data it holds.
pub open spec fn read_response_check(r: Seq<u8>, addr: u16, len: int) -> Result<Seq<u8>, P300Error> {
    if r.len() != 5 + len {
        Err(P300Error::UnexpectedResponseLength)
    } else if r[0] != RESPONSE || r[1] != READDATA {
        Err(P300Error::InvalidReadResponse)
    } else if r[2] != (addr / 256) as u8 || r[3] != (addr % 256) as u8 {
        Err(P300Error::WrongAddress)
    } else if r[4] != (len % 256) as u8 {
        Err(P300Error::WrongDataLength)
    } else {
        Ok(r.subrange(5, 5 + len))
    }
}

/// The checks on the response to a write of `len` bytes.
pub open spec fn write_response_check(r: Seq<u8>, addr: u16, len: int) -> Result<(), P300Error> {
    if r.len() != 5 {
        Err(P300Error::UnexpectedResponseLength)
    } else if r[0] != RESPONSE || r[1] != WRITEDATA {
        Err(P300Error::InvalidWriteResponse)
    } else if r[2] != (addr / 256) as u8 || r[3] != (addr % 256) as u8 {
        Err(P300Error::WrongAddress)
    } else if r[4] != (len % 256) as u8 {
        Err(P300Error::CouldNotWrite)
    } else {
        Ok(())
    }
}

fn checked_sum(message: &[u8]) -> (res: u8)
    requires
        byte_sum(message@) <= 255,
    ensures
        res == byte_sum(message@),
{
    let mut acc: u8 = 0;
    let mut i: usize = 0;
    while i < message.len()
        invariant
            i <= message@.len(),
            byte_sum(message@) <= 255,
            acc == byte_sum(message@.take(i as int)),
        decreases message@.len() - i,
    {
        proof {
            assert(message@.take(i + 1).drop_last() =~= message@.take(i as int));
            lemma_byte_sum_prefix(message@, i + 1);
        }
        acc = acc + message[i];
        i = i + 1;
    }
    assert(message@.take(i as int) =~= message@);
    acc
}

proof fn lemma_byte_sum_prefix(s: Seq<u8>, i: int)
    requires
        0 <= i <= s.len(),
    ensures
        byte_sum(s.take(i)) <= byte_sum(s),
    decreases s.len() - i,
{
    if i < s.len() {
        lemma_byte_sum_prefix(s, i + 1);
        assert(s.take(i + 1).drop_last() =~= s.take(i));
    } else {
        assert(s.take(i) =~= s);
    }
}

fn append(buffer: &mut Vec<u8>, bytes: &[u8])
    ensures
        final(buffer)@ == old(buffer)@ + bytes@,
{
    let mut i: usize = 0;
    while i < bytes.len()
        invariant
            i <= bytes@.len(),
            buffer@ == old(buffer)@ + bytes@.take(i as int),
        decreases bytes@.len() - i,
    {
        buffer.push(bytes[i]);
        i = i + 1;
        assert(buffer@ =~= old(buffer)@ + bytes@.take(i as int));
    }
    assert(bytes@.take(i as int) =~= bytes@);
}

/// The P300 protocol.
#[derive(Debug)]
pub struct P300;

impl P300 {
    /// The telegram that carries a message.
    pub fn encode_telegram(message: &[u8]) -> (res: Vec<u8>)
        requires
            p300_checksum_fits(message@),
        ensures
            res@ == p300_telegram(message@),
    {
        let message_length = (message.len() % 256) as u8;
        let checksum: u8 = checked_sum(message);
        let checksum = checksum + message_length;
        let mut buffer: Vec<u8> = Vec::new();
        buffer.push(LEADIN);
        buffer.push(message_length);
        append(&mut buffer, message);
        buffer.push(checksum);
        assert(buffer@ =~= p300_telegram(message@));
        buffer
    }

    /// Whether a received message matches its checksum byte.
    pub fn checksum_matches(message: &[u8], checksum: u8) -> (res: bool)
        requires
            p300_checksum_fits(message@),
        ensures
            res == (p300_checksum(message@) == checksum),
    {
        let sum = checked_sum(message) + (message.len() % 256) as u8;
        sum == checksum
    }

    /// The request to read `len` bytes at an address.
    pub fn read_request(addr: u16, len: usize) -> (res: Vec<u8>)
        ensures
            res@ == p300_request(READDATA, addr, len as int, Seq::<u8>::empty()),
    {
        let res = vec![REQUEST, READDATA, (addr / 256) as u8, (addr % 256) as u8, (len % 256) as u8];
        assert(res@ =~= p300_request(READDATA, addr, len as int, Seq::<u8>::empty()));
        res
    }

    /// The request to write a value at an address.
    pub fn write_request(addr: u16, value: &[u8]) -> (res: Vec<u8>)
        ensures
            res@ == p300_request(WRITEDATA, addr, value@.len() as int, value@),
    {
        let mut res = vec![
            REQUEST,
            WRITEDATA,
            (addr / 256) as u8,
            (addr % 256) as u8,
            (value.len() % 256) as u8,
        ];
        append(&mut res, value);
        assert(res@ =~= p300_request(WRITEDATA, addr, value@.len() as int, value@));
        res
    }

    /// Checks the response to a read of `len` bytes and returns the data in it.
    pub fn check_read_response(response: &[u8], addr: u16, len: usize) -> (res: Result<Vec<u8>, P300Error>)
        requires
            len <= usize::MAX - 5,
        ensures
            match (res, read_response_check(response@, addr, len as int)) {
                (Ok(v), Ok(s)) => v@ == s,
                (Err(e), Err(se)) => e == se,
                _ => false,
            },
    {
        let expected_len: usize = 5 + len;
        if expected_len != response.len() {
            return Err(P300Error::UnexpectedResponseLength);
        }
        if response[0] != RESPONSE || response[1] != READDATA {
            return Err(P300Error::InvalidReadResponse);
        }
        if response[2] != (addr / 256) as u8 || response[3] != (addr % 256) as u8 {
            return Err(P300Error::WrongAddress);
        }
        if response[4] != (len % 256) as u8 {
            return Err(P300Error::WrongDataLength);
        }
        Ok(vstd::slice::slice_to_vec(&response[5..(5 + len)]))
    }

    /// Checks the response to a write of `len` bytes.
    pub fn check_write_response(response: &[u8], addr: u16, len: usize) -> (res: Result<(), P300Error>)
        ensures
            res == write_response_check(response@, addr, len as int),
    {
        if response.len() != 5 {
            return Err(P300Error::UnexpectedResponseLength);
        }
        if response[0] != RESPONSE || response[1] != WRITEDATA {
            return Err(P300Error::InvalidWriteResponse);
        }
        if response[2] != (addr / 256) as u8 || response[3] != (addr % 256) as u8 {
            return Err(P300Error::WrongAddress);
        }
        if response[4] != (len % 256) as u8 {
            return Err(P300Error::CouldNotWrite);
        }
        Ok(())
    }
}

/// A well-formed response to a read request passes the checks and gives back its data.
pub proof fn lemma_read_response_roundtrip(addr: u16, data: Seq<u8>)
    ensures
        read_response_check(
            seq![RESPONSE, READDATA, (addr / 256) as u8, (addr % 256) as u8, (data.len() % 256) as u8]
                + data,
            addr,
            data.len() as int,
        ) == Ok::<Seq<u8>, P300Error>(data),
{
    let r = seq![RESPONSE, READDATA, (addr / 256) as u8, (addr % 256) as u8, (data.len() % 256) as u8]
        + data;
    assert(r.subrange(5, 5 + data.len() as int) =~= data);
}

} // verus!
