use vstd::prelude::*;

verus! {

/// How the bytes of a value are laid out.
#[derive(Debug, Clone, Copy, PartialEq, Eq, Structural)]
pub enum Parameter {
    Byte,
    SByte,
    Int,
    SInt,
    Int4,
    SInt4,
    IntHighByteFirst,
    SIntHighByteFirst,
    Int4HighByteFirst,
    SInt4HighByteFirst,
    Array,
    String,
    StringNt,
    StringCr,
}

impl Parameter {
    /// Layouts of a number with the high byte first.
    pub open spec fn is_high_byte_first(self) -> bool {
        self == Parameter::IntHighByteFirst || self == Parameter::Int4HighByteFirst
            || self == Parameter::SIntHighByteFirst || self == Parameter::SInt4HighByteFirst
    }

    /// Layouts of a number.
    pub open spec fn is_integer(self) -> bool {
        !(self == Parameter::Array || self == Parameter::String || self == Parameter::StringNt
            || self == Parameter::StringCr)
    }

    /// Number of bytes that a number with this layout takes.
    pub open spec fn int_size(self) -> int {
        if self == Parameter::Byte || self == Parameter::SByte {
            1
        } else if self == Parameter::Int || self == Parameter::SInt || self
            == Parameter::IntHighByteFirst || self == Parameter::SIntHighByteFirst {
            2
        } else {
            4
        }
    }
}

} // verus!
