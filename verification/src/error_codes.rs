//! Error codes of the remote protocol, as JSON-RPC defines them.

use vstd::prelude::*;

verus! {

/// Invalid method parameters.
pub const INVALID_PARAMS: i16 = -32602;

} // verus!
