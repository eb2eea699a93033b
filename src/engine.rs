use vstd::prelude::*;

verus! {

/// The result of running a function: an integer of a given bit width,
/// as the back end hands it over.
#[derive(Clone, Copy, Debug, PartialEq, Eq, Structural)]
pub struct FuncallResult {
    pub bits: u64,
    pub width: u32,
}

impl FuncallResult {
    pub fn new(bits: u64, width: u32) -> (r: FuncallResult)
        ensures
            r.bits == bits,
            r.width == width,
    {
        FuncallResult { bits, width }
    }

    /// The result as an unsigned integer.
    pub fn to_int(&self) -> (r: u64)
        ensures
            r == self.bits,
    {
        self.bits
    }

    /// The bit width of the integer result.
    pub fn int_width(&self) -> (r: u32)
        ensures
            r == self.width,
    {
        self.width
    }
}

} // verus!
