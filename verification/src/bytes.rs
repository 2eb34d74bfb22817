use vstd::prelude::*;

verus! {

/// The number that two bytes encode, the high byte first.
pub open spec fn be_u16(hi: u8, lo: u8) -> u16 {
    (hi as int * 256 + lo as int) as u16
}

/// Reads a `u16` from two bytes, the high byte first.
pub fn u16_from_be(hi: u8, lo: u8) -> (res: u16)
    ensures
        res == be_u16(hi, lo),
        res as int == hi as int * 256 + lo as int,
{
    hi as u16 * 256 + lo as u16
}

/// The two bytes of a `u16`, the high byte first.
pub fn u16_to_be(x: u16) -> (res: [u8; 2])
    ensures
        res@ == seq![(x / 256) as u8, (x % 256) as u8],
        be_u16(res@[0], res@[1]) == x,
{
    [(x / 256) as u8, (x % 256) as u8]
}

/// Splitting a `u16` into bytes and joining them again gives it back.
pub proof fn lemma_be_u16_split(x: u16)
    ensures
        be_u16((x / 256) as u8, (x % 256) as u8) == x,
{
}

/// Joining two bytes into a `u16` and splitting it gives them back.
pub proof fn lemma_be_u16_join(hi: u8, lo: u8)
    ensures
        (be_u16(hi, lo) / 256) as u8 == hi,
        (be_u16(hi, lo) % 256) as u8 == lo,
{
}

} // verus!
