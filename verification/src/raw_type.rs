use vstd::prelude::*;

verus! {

/// Raw types of values.
#[derive(Debug, Clone, Copy, PartialEq, Eq, Structural)]
pub enum RawType {
    I8,
    I16,
    I32,
    U8,
    U16,
    U32,
    Array,
}

impl RawType {
    /// Return size for types with static size.
    pub fn size(&self) -> (res: Option<usize>)
        ensures
            res == match *self {
                RawType::I8 | RawType::U8 => Some(1usize),
                RawType::I16 | RawType::U16 => Some(2usize),
                RawType::I32 | RawType::U32 => Some(4usize),
                RawType::Array => None::<usize>,
            },
    {
        Some(
            match self {
                Self::I8 => 1,
                Self::I16 => 2,
                Self::I32 => 4,
                Self::U8 => 1,
                Self::U16 => 2,
                Self::U32 => 4,
                _ => return None,
            },
        )
    }
}

} // verus!
