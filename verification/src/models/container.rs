//! A running container selected for backup.
use vstd::prelude::*;

use crate::models::labels::Labels;

verus! {

/// A container, named as Docker names it, with its parsed labels.
#[derive(Debug, Clone)]
pub struct Container {
    pub id: String,
    pub name: String,
    pub labels: Labels,
}

impl Container {
    pub fn new(id: String, name: String, labels: Labels) -> (c: Container)
        ensures
            c.id == id,
            c.name == name,
            c.labels == labels,
    {
        Container { id, name, labels }
    }
}

} // verus!
