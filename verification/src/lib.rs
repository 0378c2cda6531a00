pub mod authoring;
pub mod bytes;
pub mod codec;
pub mod command;
pub mod handler;
pub mod laws;
pub mod matcher;
pub mod norm;
pub mod render;
pub mod response;
pub mod store;

use vstd::prelude::*;

verus! {

/// True when byte `b` is an ASCII whitespace character: the class that
/// token splitting and command parsing use. Message normalization trims by
/// the standard library's Unicode rules instead (see `norm::trim_of`), so a
/// non-ASCII space separates nothing here.
pub open spec fn is_ws(b: u8) -> bool {
    b == 32 || b == 9 || b == 10 || b == 13 || b == 11 || b == 12
}

} // verus!
