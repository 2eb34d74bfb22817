use vstd::prelude::*;

use crate::access_mode::AccessMode;

verus! {

/// Settings of the web server that publishes a controller's values.
#[derive(Debug, Clone, Copy, PartialEq, Eq, Structural)]
pub struct Server {
    pub port: u16,
}

impl Server {
    /// A server on the given port.
    pub fn new(port: u16) -> (res: Self)
        ensures
            res.port == port,
    {
        Self { port }
    }
}

/// How a command's property is marked in its schema: read-only for a
/// command that can only be read, write-only for one that can only be
/// written, neither for one that can be both.
pub fn property_flags(mode: AccessMode) -> (res: (bool, bool))
    ensures
        res.0 == (mode == AccessMode::Read),
        res.1 == (mode == AccessMode::Write),
{
    match mode {
        AccessMode::Read => (true, false),
        AccessMode::Write => (false, true),
        AccessMode::ReadWrite => (false, false),
    }
}

} // verus!
