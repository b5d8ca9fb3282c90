use vstd::prelude::*;

verus! {

/// Options of the deployment environment listing: the deployment to
/// read, prompted for when absent.
#[derive(Debug)]
pub struct Options {
    pub deployment: Option<String>,
}

} // verus!
