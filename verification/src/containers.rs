use vstd::prelude::*;

verus! {

/// Options of the container-recreate subcommand: the containers to
/// recreate, prompted for when none are named, and whether to skip
/// the confirmation.
#[derive(Debug)]
pub struct Options {
    pub containers: Vec<String>,
    pub force: bool,
}

} // verus!
