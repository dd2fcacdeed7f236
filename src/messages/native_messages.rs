//! Operations addressed to the supervisor.

use std::marker::PhantomData;
use vstd::prelude::*;

use crate::instance::Instance as Controller;
use crate::messages::instance_messages;
use crate::model;

verus! {

/// Stop every running instance and shut down.
#[derive(Debug)]
pub struct Stop;

/// Look up the handle of the instance with the given name.
#[derive(Debug)]
pub struct AddrOf<A>(pub String, pub PhantomData<A>);

impl<A> AddrOf<A> {
    pub fn new(name: String) -> (r: Self)
        ensures
            r.0 == name,
    {
        AddrOf(name, PhantomData)
    }
}

/// Ask for the ports in use and the configured ranges.
#[derive(Debug)]
pub struct Ports;

/// Drop the instance with the given name and remove its directory.
#[derive(Debug)]
pub struct Nuke {
    pub who: String,
}

/// Provision an instance; `ext` carries what the kind of provisioning needs.
#[derive(Debug)]
pub struct InitServer<P> {
    pub java_args: Vec<String>,
    pub url: String,
    /// Memory ceiling, in mebibytes.
    pub max_memory: u64,
    pub ports: model::Ports,
    pub ext: P,
}

/// Delete the instance with the given name.
#[derive(Debug)]
pub struct DeleteServer {
    pub name: String,
}

/// Change the descriptor of the instance with the given name.
#[derive(Debug)]
pub struct AlterServer {
    pub name: String,
    pub msg: instance_messages::AlterServer,
}

/// Apply the projection `f` to every tracked instance.
#[verifier::reject_recursive_types(O)]
#[verifier::reject_recursive_types(F)]
pub struct Instances<O, F> where F: Fn(&Controller) -> Option<O> {
    pub f: F,
}

/// Ask for the names of the instances whose manifest could not be parsed.
#[derive(Debug)]
pub struct Broken;

/// Ask for what the unparsable manifest of a broken instance holds.
#[derive(Debug)]
pub struct DataOfBroken {
    pub name: String,
}

} // verus!
