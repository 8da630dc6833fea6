use vstd::prelude::*;

pub mod dump;
pub mod request;
pub mod table;
pub mod session;

pub use crate::request::InfoParamType;
pub use crate::session::Genesis;

verus! {

/// Sum of two sizes.
pub fn add(left: usize, right: usize) -> (r: usize)
    requires
        left + right <= usize::MAX,
    ensures
        r == left + right,
{
    left + right
}

} // verus!
