use vstd::prelude::*;

verus! {

/// Configuration used to initialize logical contexts.  Options are fixed at
/// context construction; a configuration carries no further state here.
pub struct Config {}

impl Config {
    pub fn new() -> (r: Config) {
        Config {}
    }
}

} // verus!
