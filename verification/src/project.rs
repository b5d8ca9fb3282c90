use vstd::prelude::*;

verus! {

/// Options of the project-creation subcommand: the new project's name
/// and namespace, prompted for when absent, and whether to make it
/// the default project.
#[derive(Debug)]
pub struct CreateOptions {
    pub name: Option<String>,
    pub namespace: Option<String>,
    pub default: bool,
}

} // verus!
