//! The registration record of the inventory service, which registers without
//! a health check. The agent's address, its listing and the filters are the
//! same as in `registry`.
use vstd::prelude::*;
pub use crate::registry::{ConsulOption, Filter, Service};
use crate::registry::{owned_strings, same_tags};

verus! {

/// A registration of one service instance, without a health check.
#[derive(Debug, Clone)]
pub struct Registration {
    pub name: String,
    pub id: String,
    pub tags: Vec<String>,
    pub address: String,
    pub port: i32,
}

impl Registration {
    /// A registration with every field given.
    pub fn new(name: &str, id: &str, tags: Vec<&str>, addr: &str, port: i32) -> (r: Self)
        ensures
            r.name@ == name@,
            r.id@ == id@,
            same_tags(r.tags@, tags@),
            r.address@ == addr@,
            r.port == port,
    {
        Registration {
            name: name.to_string(),
            id: id.to_string(),
            tags: owned_strings(&tags),
            address: addr.to_string(),
            port,
        }
    }

    /// A registration whose id is its name.
    pub fn simple_with_tags(name: &str, tags: Vec<&str>, addr: &str, port: i32) -> (r: Self)
        ensures
            r.name@ == name@,
            r.id@ == name@,
            same_tags(r.tags@, tags@),
            r.address@ == addr@,
            r.port == port,
    {
        Self::new(name, name, tags, addr, port)
    }

    /// A registration whose id is its name, without tags.
    pub fn simple(name: &str, addr: &str, port: i32) -> (r: Self)
        ensures
            r.name@ == name@,
            r.id@ == name@,
            r.tags@.len() == 0,
            r.address@ == addr@,
            r.port == port,
    {
        Self::simple_with_tags(name, Vec::new(), addr, port)
    }
}

} // verus!
