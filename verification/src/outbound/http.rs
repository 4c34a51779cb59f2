//! The outbound that reaches targets through an HTTP proxy's `CONNECT`.
use vstd::prelude::*;

verus! {

/// What the proxy's answer to `CONNECT` means: status 200 opens the tunnel;
/// any other status is an error that carries it.
pub fn connect_reply(status: u16) -> (r: Result<(), u16>)
    ensures
        status == 200 ==> r == Ok::<(), u16>(()),
        status != 200 ==> r == Err::<(), u16>(status),
{
    if status == 200 {
        Ok(())
    } else {
        Err(status)
    }
}

} // verus!
