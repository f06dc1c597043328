//! The example application's API route.

use vstd::prelude::*;
use vstd::string::*;

verus! {

/// The reply of the `/api/hello` route: the value it was sent, followed by
/// ` is cool`.
pub fn hello(value: String) -> (r: String)
    ensures
        r@ == value@ + " is cool"@,
{
    let mut value = value;
    value.append(" is cool");
    value
}

} // verus!
