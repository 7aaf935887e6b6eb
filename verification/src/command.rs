use vstd::prelude::*;

verus! {

/// Where an installed subcommand executable was found, and the name it
/// extends the tool under.
#[derive(Debug)]
pub struct SubCommandLocation {
    pub path: String,
    pub name: String,
}

/// One executable piece of work, implemented by the callers of this library:
/// it takes the remaining command-line arguments and reports a value or a
/// message.
pub trait Execution<T> {
    fn execute(&self, args: &Vec<String>) -> Result<T, String>;
}

} // verus!
