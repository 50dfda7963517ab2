//! The surrogate under which non-integer numbers cross into the library.

use vstd::prelude::*;

verus! {

/// A non-integer number, as it crossed the boundary into the library.
///
/// The library itself holds no floating-point values.  A caller that decodes a
/// document turns each such number into this surrogate: `key` is an
/// order-preserving encoding of the number (so comparing keys decides a bound
/// check exactly as comparing the numbers themselves would), and `text` is
/// its decimal rendering, kept for diagnostics.
#[derive(Debug, Clone, PartialEq, Eq, Hash)]
pub struct DecValue {
    pub key: u64,
    pub text: String,
}

/// The mathematical image of a [`DecValue`].
pub struct DecV {
    pub key: u64,
    pub text: Seq<char>,
}

impl View for DecValue {
    type V = DecV;

    open spec fn view(&self) -> DecV {
        DecV { key: self.key, text: self.text@ }
    }
}

impl DecValue {
    /// A copy whose image equals this value's image.
    pub fn duplicate(&self) -> (r: DecValue)
        ensures
            r@ == self@,
    {
        DecValue { key: self.key, text: self.text.clone() }
    }

}

} // verus!
