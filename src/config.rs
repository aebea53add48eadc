use vstd::prelude::*;

verus! {

/// What a caller names on the command line: the pool that prices the asset
/// in the intermediate token, as a hexadecimal address.
#[derive(Clone, Debug, PartialEq, Eq)]
pub struct Args {
    pub pool: String,
}

} // verus!
