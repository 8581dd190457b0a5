//! Small helpers shared by the selector's components.

use vstd::prelude::*;
use vstd::string::StringExecFns;

use crate::strutil::{dec_str, u64_to_string};

verus! {

/// The one-line description of one side of a binary file change: the hash
/// followed by the size in bytes.
pub open spec fn spec_binary_description(hash: Seq<char>, num_bytes: u64) -> Seq<char> {
    hash + " ("@ + dec_str(num_bytes as nat) + " bytes)"@
}

/// Generate a one-line description of a binary file change.
pub fn make_binary_description(hash: &str, num_bytes: u64) -> (r: String)
    ensures
        r@ == spec_binary_description(hash@, num_bytes),
{
    let size = u64_to_string(num_bytes);
    let r = hash.to_owned().concat(" (").concat(size.as_str()).concat(" bytes)");
    proof {
        assert(r@ =~= spec_binary_description(hash@, num_bytes));
    }
    r
}

} // verus!
