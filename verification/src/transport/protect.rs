//! Socket-protect hook for embedders.
//!
//! A host that routes everything into the tunnel, the node's own underlay
//! sockets included, needs each of those excluded. An embedder installs a hook
//! for that, which the node calls with the raw handle of every underlay socket
//! after creating it and before any traffic is sent on it.

use vstd::prelude::*;

verus! {

/// Calls `hook`, when one is installed, with a socket's raw handle.
pub fn apply_socket_protect<H, F: Fn(H)>(hook: Option<&F>, handle: H)
    requires
        hook matches Some(hook) ==> call_requires(*hook, (handle,)),
    ensures
        hook matches Some(hook) ==> call_ensures(*hook, (handle,), ()),
{
    if let Some(hook) = hook {
        hook(handle);
    }
}

} // verus!
