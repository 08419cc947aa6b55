//! Small helpers shared by the resolvers and by the host program.

use vstd::prelude::*;

verus! {

use vstd::string::StrSliceExecFns;

/// The user-agent string sent with source-host API requests, identifying the
/// tool and its version.
pub fn user_agent() -> (r: String)
    ensures
        r@ == "uptix/0.1.0"@,
{
    "uptix/0.1.0".to_owned()
}

/// Whether a directory entry with this file name at this depth survives the
/// hidden-file filter used while discovering configuration sources: the walk
/// root itself always does, anything whose name starts with a dot does not.
pub fn is_not_hidden(name: &str, depth: usize) -> (r: bool)
    ensures
        r == (depth == 0 || !(name@.len() > 0 && name@[0] == '.')),
{
    if depth == 0 {
        return true;
    }
    if name.unicode_len() == 0 {
        return true;
    }
    let c = name.get_char(0);
    c != '.'
}

} // verus!
