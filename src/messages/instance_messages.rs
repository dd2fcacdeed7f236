//! Operations addressed to a single instance.

use vstd::prelude::*;

use crate::instance::Instance as Controller;

verus! {

/// Start (`true`) or stop (`false`) the instance's process.
#[derive(Debug, Clone, Copy)]
pub struct SwitchServer {
    pub should_run: bool,
}

/// Terminate any live process of the instance.
#[derive(Debug, Clone, Copy)]
pub struct Kill;

/// New values for some fields of a stopped instance's descriptor.
#[derive(Debug)]
pub struct AlterServer {
    /// Memory ceiling, in mebibytes.
    pub max_memory: Option<u64>,
    pub port: Option<u16>,
    pub java_args: Option<Vec<String>>,
}

/// A read-only query: the projection `f` applied to one instance.
#[verifier::reject_recursive_types(O)]
#[verifier::reject_recursive_types(F)]
pub struct Instance<O, F> where F: Fn(&Controller) -> Option<O> {
    pub f: F,
}

} // verus!
