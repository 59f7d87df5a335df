//! Message types of the token-metadata extension surface.  The extension
//! itself delegates its behaviour to an outside base contract and is out of
//! this library's scope; only its message types live here.

use vstd::prelude::*;

verus! {

/// A response carrying a single opaque value.
#[derive(Clone, Debug, PartialEq, Eq)]
pub struct CustomResponse {
    val: String,
}

impl CustomResponse {
    /// Wrap a value.
    pub fn new(val: String) -> (r: CustomResponse)
        ensures
            r.value() == val@,
    {
        CustomResponse { val }
    }

    /// The wrapped value.
    pub closed spec fn value(self) -> Seq<char> {
        self.val@
    }
}

/// The migration surface: no migration does anything.
#[derive(Clone, Debug, PartialEq, Eq)]
pub enum MigrateMsg {
    Noop {},
}

} // verus!
