//! Herdr identifiers. Each is an opaque text handed out by Herdr.

use vstd::prelude::*;

verus! {

#[derive(Debug, Clone, PartialEq, Eq)]
pub struct WorkspaceId(pub String);

#[derive(Debug, Clone, PartialEq, Eq)]
pub struct TabId(pub String);

#[derive(Debug, Clone, PartialEq, Eq)]
pub struct PaneId(pub String);

impl WorkspaceId {
    pub fn as_str(&self) -> (r: &str)
        ensures
            r@ == self.0@,
    {
        self.0.as_str()
    }
}

impl TabId {
    pub fn as_str(&self) -> (r: &str)
        ensures
            r@ == self.0@,
    {
        self.0.as_str()
    }
}

impl PaneId {
    pub fn as_str(&self) -> (r: &str)
        ensures
            r@ == self.0@,
    {
        self.0.as_str()
    }

    pub fn duplicate(&self) -> (r: PaneId)
        ensures
            r == *self,
    {
        PaneId(self.0.clone())
    }
}

} // verus!
