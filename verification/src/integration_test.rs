//! The two payloads that exist to exercise the bus end to end.

use vstd::prelude::*;

verus! {

/// A named probe.
#[derive(Clone, Debug, PartialEq, Eq)]
pub struct IntegrationTest {
    pub name: String,
}

/// A named probe of a second kind, routed apart from the first.
#[derive(Clone, Debug, PartialEq, Eq)]
pub struct IntegrationTestAlt {
    pub name: String,
}

impl IntegrationTest {
    /// The probe called `name`.
    pub fn new(name: String) -> (r: IntegrationTest)
        ensures
            r.name == name,
    {
        IntegrationTest { name }
    }
}

impl IntegrationTestAlt {
    /// The probe called `name`.
    pub fn new(name: String) -> (r: IntegrationTestAlt)
        ensures
            r.name == name,
    {
        IntegrationTestAlt { name }
    }
}

} // verus!
