use vstd::prelude::*;

verus! {

/// Opaque process configuration handed to command factories at registry
/// build time. The command core never inspects it.
pub struct Config {}

impl Config {
    pub fn new() -> (c: Config) {
        Config {  }
    }
}

} // verus!
