use vstd::prelude::*;

verus! {

/// A value that can be put back in wire form.
pub trait Encode: Sized {
    fn encode(&self) -> Self;
}

} // verus!
