use vstd::prelude::*;

pub mod function;
pub mod p300;
pub mod vs1;
pub mod vs2;

verus! {

/// The protocols that controllers speak over an Optolink connection.
#[derive(Debug, Clone, Copy, PartialEq, Eq, Structural)]
pub enum Protocol {
    Vs1,
    Vs2,
}

impl Protocol {
    /// The protocol's name: `VS1` or `VS2`.
    pub fn name(&self) -> (res: &'static str)
        ensures
            res@ == (match *self {
                Protocol::Vs1 => "VS1"@,
                Protocol::Vs2 => "VS2"@,
            }),
    {
        match self {
            Self::Vs1 => "VS1",
            Self::Vs2 => "VS2",
        }
    }
}

} // verus!
