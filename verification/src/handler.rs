use vstd::prelude::*;

verus! {

/// Stateless receiver for incoming chat events. The transport layer wraps
/// this in its own event-handler adapter; the core keeps no state here.
pub struct Handler;

impl Handler {
    pub fn new() -> (h: Handler) {
        Handler
    }
}

} // verus!
