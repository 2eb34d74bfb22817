use vstd::prelude::*;

verus! {

/// Resets the connection so that the controller sends `SYNC` soon.
pub const RESET: u8 = 0x04;

/// Sent by the controller when it is ready for a request.
pub const SYNC: u8 = 0x05;

/// Functions that a request of the VS1 protocol asks for.
#[derive(Debug, Clone, Copy, PartialEq, Eq, Structural)]
pub enum Function {
    VirtualRead,
    VirtualWrite,
    GfaRead,
    GfaWrite,
    ProcessRead,
    ProcessWrite,
}

/// The byte of a function in a request.
pub open spec fn vs1_function_code(f: Function) -> u8 {
    match f {
        Function::VirtualRead => 247,
        Function::VirtualWrite => 244,
        Function::GfaRead => 107,
        Function::GfaWrite => 104,
        Function::ProcessRead => 123,
        Function::ProcessWrite => 120,
    }
}

impl Function {
    /// The byte of the function.
    pub fn code(self) -> (res: u8)
        ensures
            res == vs1_function_code(self),
    {
        match self {
            Function::VirtualRead => 247,
            Function::VirtualWrite => 244,
            Function::GfaRead => 107,
            Function::GfaWrite => 104,
            Function::ProcessRead => 123,
            Function::ProcessWrite => 120,
        }
    }
}

/// A request: 0x01, the function, the address (high byte first) and the
/// length (its low byte), then the value to write.
pub open spec fn vs1_request(f: Function, addr: u16, len: int, value: Seq<u8>) -> Seq<u8> {
    seq![0x01u8, vs1_function_code(f), (addr / 256) as u8, (addr % 256) as u8, (len % 256) as u8]
        + value
}

/// The VS1 protocol (also known as KW).
#[derive(Debug)]
pub struct Vs1;

impl Vs1 {
    /// The request to read `len` bytes at an address.
    pub fn read_request(addr: u16, len: usize) -> (res: Vec<u8>)
        ensures
            res@ == vs1_request(Function::VirtualRead, addr, len as int, Seq::<u8>::empty()),
    {
        let res = vec![
            0x01,
            Function::VirtualRead.code(),
            (addr / 256) as u8,
            (addr % 256) as u8,
            (len % 256) as u8,
        ];
        assert(res@ =~= vs1_request(Function::VirtualRead, addr, len as int, Seq::<u8>::empty()));
        res
    }

    /// The request to write a value at an address.
    pub fn write_request(addr: u16, value: &[u8]) -> (res: Vec<u8>)
        ensures
            res@ == vs1_request(Function::VirtualWrite, addr, value@.len() as int, value@),
    {
        let mut res = vec![
            0x01,
            Function::VirtualWrite.code(),
            (addr / 256) as u8,
            (addr % 256) as u8,
            (value.len() % 256) as u8,
        ];
        let ghost head = res@;
        let mut i: usize = 0;
        while i < value.len()
            invariant
                i <= value@.len(),
                res@ == head + value@.take(i as int),
            decreases value@.len() - i,
        {
            res.push(value[i]);
            i = i + 1;
            assert(res@ =~= head + value@.take(i as int));
        }
        assert(value@.take(i as int) =~= value@);
        assert(res@ =~= vs1_request(Function::VirtualWrite, addr, value@.len() as int, value@));
        res
    }

    /// Whether a response to a read is taken: one without `SYNC` bytes, or one
    /// that came within 500 ms per byte (then its `SYNC` bytes are data, not
    /// synchronization).
    pub fn response_accepted(buf: &[u8], read_time_ms: u64) -> (res: bool)
        requires
            500 * buf@.len() <= u64::MAX,
        ensures
            res == (!buf@.contains(SYNC) || read_time_ms < 500 * buf@.len()),
    {
        let mut has_sync = false;
        let mut i: usize = 0;
        while i < buf.len()
            invariant
                i <= buf@.len(),
                has_sync == buf@.take(i as int).contains(SYNC),
            decreases buf@.len() - i,
        {
            if buf[i] == SYNC {
                has_sync = true;
                assert(buf@.take(i + 1)[i as int] == SYNC);
            }
            assert(buf@.take(i + 1) =~= buf@.take(i as int).push(buf@[i as int]));
            i = i + 1;
        }
        assert(buf@.take(i as int) =~= buf@);
        if has_sync {
            read_time_ms < 500 * buf.len() as u64
        } else {
            true
        }
    }

    /// Whether the answer to a write acknowledges it: the single byte 0x00.
    pub fn write_acknowledged(buf: &[u8]) -> (res: bool)
        ensures
            res == (buf@ == seq![0x00u8]),
    {
        if buf.len() == 1 && buf[0] == 0x00 {
            assert(buf@ =~= seq![0x00u8]);
            true
        } else {
            false
        }
    }
}

} // verus!
