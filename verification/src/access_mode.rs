use vstd::prelude::*;

verus! {

/// How a command may be used: read, written, or both.
#[derive(Debug, Clone, Copy, PartialEq, Eq, Structural)]
pub enum AccessMode {
    Read,
    Write,
    ReadWrite,
}

impl AccessMode {
    /// Whether commands with this mode can be read.
    pub fn is_read(self) -> (res: bool)
        ensures
            res == (self == AccessMode::Read || self == AccessMode::ReadWrite),
    {
        matches!(self, AccessMode::Read | AccessMode::ReadWrite)
    }

    /// Whether commands with this mode can be written.
    pub fn is_write(self) -> (res: bool)
        ensures
            res == (self == AccessMode::Write || self == AccessMode::ReadWrite),
    {
        matches!(self, AccessMode::Write | AccessMode::ReadWrite)
    }
}

} // verus!
