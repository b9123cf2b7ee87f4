//! Selecting, among the containers that Docker lists, those the tool backs up.
use std::collections::HashMap;

use vstd::prelude::*;

use crate::models::container::Container;
use crate::models::labels::{parse_outcome, required_keys_present, string_map_view, Labels};

verus! {

/// The listing entry has an identifier and at least one name.
pub open spec fn summary_is_complete(id: Option<String>, names: Option<Vec<String>>) -> bool {
    id is Some && match names {
        Some(ns) => ns@.len() >= 1,
        None => false,
    }
}

/// The entry has labels, and they carry every required key.
pub open spec fn labels_qualify(labels: Option<&HashMap<String, String>>) -> bool {
    match labels {
        Some(l) => required_keys_present(string_map_view(l@)),
        None => false,
    }
}

/// `c` is the container the entry describes.
pub open spec fn describes(
    c: Container,
    id: Option<String>,
    names: Option<Vec<String>>,
    labels: Option<&HashMap<String, String>>,
) -> bool {
    match (id, names, labels) {
        (Some(i), Some(ns), Some(l)) => c.id == i && c.name == ns@[0] && parse_outcome(
            Ok(c.labels),
            string_map_view(l@),
        ),
        _ => false,
    }
}

/// The container that a Docker listing entry describes, when its labels
/// carry every required key: its identifier, its first name and its parsed
/// labels. Entries without labels, or without a required key, give `None`.
pub fn container_from_summary(
    id: Option<String>,
    names: Option<Vec<String>>,
    labels: Option<&HashMap<String, String>>,
) -> (r: Option<Container>)
    requires
        labels_qualify(labels) ==> summary_is_complete(id, names),
    ensures
        r is Some <==> labels_qualify(labels),
        r matches Some(c) ==> describes(c, id, names, labels),
{
    match labels {
        None => None,
        Some(l) => match Labels::from_labels(l) {
            Ok(parsed) => {
                let id = id.unwrap();
                let names = names.unwrap();
                let name = names[0].clone();
                Some(Container::new(id, name, parsed))
            },
            Err(_) => None,
        },
    }
}

} // verus!
