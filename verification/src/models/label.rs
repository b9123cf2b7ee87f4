//! The three basic labels of a container, read leniently: a missing label
//! takes its default instead of failing.
use std::collections::HashMap;

use vstd::prelude::*;

use crate::models::extraction::ExtractionType;
use crate::models::labels::{
    distinct_keys, enable_key, entries_map, entry_views, extraction_type_key, find_key, flag_set,
    label_entries, online_key, string_map_view,
};
use crate::text::str_equals;

verus! {

/// The extraction method a capitalised name stands for; `File` for any
/// other name and when the label is missing.
pub open spec fn extraction_type_titled(m: Map<Seq<char>, Seq<char>>) -> ExtractionType {
    if !m.contains_key(extraction_type_key()) {
        ExtractionType::File
    } else {
        let v = m[extraction_type_key()];
        if v == "File"@ {
            ExtractionType::File
        } else if v == "TinyDB"@ {
            ExtractionType::TinyDB
        } else if v == "SQLite"@ {
            ExtractionType::SQLite
        } else if v == "Pocketbase"@ {
            ExtractionType::Pocketbase
        } else {
            ExtractionType::File
        }
    }
}

/// The basic labels of a container.
#[derive(Debug, Clone)]
pub struct Label {
    pub enabled: bool,
    pub extraction_type: ExtractionType,
    pub online: bool,
}

/// The required label keys, each under its short name.
pub fn label_keys() -> (r: Vec<(String, String)>)
    ensures
        entry_views(r@) == seq![
            ("enable"@, enable_key()),
            ("extraction_type"@, extraction_type_key()),
            ("online"@, online_key()),
        ],
{
    crate::models::labels::label_keys()
}

/// Whether the flag label `key` is present with the value `true`.
fn flag_value(entries: &Vec<(String, String)>, key: &str) -> (r: bool)
    requires
        distinct_keys(entries@),
    ensures
        r == flag_set(entries_map(entries@), key@),
{
    match find_key(entries, key) {
        Some(i) => str_equals(entries[i].1.as_str(), "true"),
        None => false,
    }
}

impl Label {
    pub fn new(enabled: bool, extraction_type: ExtractionType, online: bool) -> (l: Label)
        ensures
            l.enabled == enabled,
            l.extraction_type == extraction_type,
            l.online == online,
    {
        Label { enabled, extraction_type, online }
    }

    /// Reads the flags and the extraction method; each missing label takes
    /// its default: not enabled, `File`, not online.
    pub fn from_labels(labels: &HashMap<String, String>) -> (l: Label)
        ensures
            l.enabled == flag_set(string_map_view(labels@), enable_key()),
            l.extraction_type == extraction_type_titled(string_map_view(labels@)),
            l.online == flag_set(string_map_view(labels@), online_key()),
    {
        let entries = label_entries(labels);
        let enabled = flag_value(&entries, "bdf.enable");
        let extraction_type = match find_key(&entries, "bdf.extraction_type") {
            Some(i) => {
                let name = entries[i].1.as_str();
                if str_equals(name, "File") {
                    ExtractionType::File
                } else if str_equals(name, "TinyDB") {
                    ExtractionType::TinyDB
                } else if str_equals(name, "SQLite") {
                    ExtractionType::SQLite
                } else if str_equals(name, "Pocketbase") {
                    ExtractionType::Pocketbase
                } else {
                    ExtractionType::File
                }
            },
            None => ExtractionType::File,
        };
        let online = flag_value(&entries, "bdf.online");
        Label { enabled, extraction_type, online }
    }
}

} // verus!
