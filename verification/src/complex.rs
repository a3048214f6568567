//! Complex numbers with integer components: construction and
//! component-wise equality.

use vstd::prelude::*;

verus! {

/// A complex number `re + im * i` with integer components. Two values
/// are equal exactly when both components are equal.
#[derive(Clone, Copy, Debug, PartialEq, Eq, Structural)]
pub struct Complex {
    pub re: i64,
    pub im: i64,
}

impl Complex {
    /// Builds the complex number `re + im * i`.
    pub fn new(re: i64, im: i64) -> (r: Complex)
        ensures
            r.re == re,
            r.im == im,
    {
        Complex { re, im }
    }
}

} // verus!
