//! Small string helpers.

use vstd::prelude::*;
use vstd::string::StringExecFns;

verus! {

/// Append the greeting suffix " World" to the string in place.
pub fn append_string(s3: &mut String)
    ensures
        final(s3)@ == old(s3)@ + " World"@,
{
    s3.append(" World");
}

} // verus!
