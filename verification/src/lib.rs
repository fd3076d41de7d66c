//! Verified core of a toolkit for writing MDB debugger modules (dmods):
//! dcmd return codes and flags, typed dcmd arguments, walker steps,
//! registration tables, and the decisions behind the `Walker` and `Dcmd`
//! derives.
#![allow(non_camel_case_types)]

pub mod sys;
pub mod dcmd;
pub mod text;
pub mod walk;
pub mod demo;
pub mod api;
pub mod allocator;
pub mod modinfo;
pub mod derives;

use vstd::prelude::*;
use vstd::std_specs::convert::FromSpecImpl;

verus! {

/// An address used in MDB.
#[derive(Clone, Copy, Debug)]
pub struct Addr(pub(crate) u64);

impl View for Addr {
    type V = u64;

    /// The numeric address.
    closed spec fn view(&self) -> u64 {
        self.0
    }
}

impl Addr {
    /// Construct a new address.
    pub fn new(x: u64) -> (a: Self)
        ensures
            a@ == x,
    {
        Self(x)
    }

    /// Return this as a `uintptr_t`.
    pub fn as_ptr(&self) -> (p: u64)
        ensures
            p == self@,
    {
        self.0
    }
}

impl From<u64> for Addr {
    fn from(value: u64) -> (a: Self) {
        Addr(value)
    }
}

impl FromSpecImpl<u64> for Addr {
    open spec fn obeys_from_spec() -> bool {
        true
    }

    /// The address with this numeric value.
    closed spec fn from_spec(v: u64) -> Addr {
        Addr(v)
    }
}

/// Law: an address converted from a number holds that number, as one built
/// by `new` does, so `as_ptr` gives the number back.
pub proof fn law_addr_round_trip(x: u64)
    ensures
        <Addr as vstd::std_specs::convert::FromSpec<u64>>::from_spec(x)@ == x,
{
}

} // verus!
