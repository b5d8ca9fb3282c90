use vstd::prelude::*;

verus! {

/// Options of the logout subcommand; it takes no arguments.
#[derive(Debug)]
pub struct LogoutOptions {}

} // verus!
