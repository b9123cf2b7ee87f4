//! The `bdf.*` container labels that tell the tool what to back up and how.
use std::collections::HashMap;

use vstd::prelude::*;

use crate::models::extraction::ExtractionType;
use crate::text::{has_prefix, precedes, starts_with, str_equals, str_precedes, views};

verus! {

/// A label map with keys and values taken as character sequences.
pub open spec fn string_map_view(m: Map<String, String>) -> Map<Seq<char>, Seq<char>> {
    Map::new(
        |k: Seq<char>| exists|s: String| m.contains_key(s) && s@ == k,
        |k: Seq<char>| m[choose|s: String| m.contains_key(s) && s@ == k]@,
    )
}

/// No two entries have the same key.
pub open spec fn distinct_keys(es: Seq<(String, String)>) -> bool {
    forall|i: int, j: int|
        0 <= i < es.len() && 0 <= j < es.len() && i != j ==> es[i].0@ != es[j].0@
}

/// The map that a list of key/value entries describes.
pub open spec fn entries_map(es: Seq<(String, String)>) -> Map<Seq<char>, Seq<char>>
    decreases es.len(),
{
    if es.len() == 0 {
        Map::empty()
    } else {
        entries_map(es.drop_last()).insert(es.last().0@, es.last().1@)
    }
}

/// The views of a list of key/value entries.
pub open spec fn entry_views(es: Seq<(String, String)>) -> Seq<(Seq<char>, Seq<char>)> {
    es.map_values(|e: (String, String)| (e.0@, e.1@))
}

/// With distinct keys, each entry is in the map, and the map holds nothing else.
pub proof fn lemma_entries_map(es: Seq<(String, String)>)
    requires
        distinct_keys(es),
    ensures
        forall|i: int|
            0 <= i < es.len() ==> #[trigger] entries_map(es).contains_key(es[i].0@)
                && entries_map(es)[es[i].0@] == es[i].1@,
        forall|k: Seq<char>|
            #[trigger] entries_map(es).contains_key(k) ==> exists|i: int|
                0 <= i < es.len() && es[i].0@ == k,
    decreases es.len(),
{
    if es.len() > 0 {
        let front = es.drop_last();
        assert(distinct_keys(front));
        lemma_entries_map(front);
        assert(entries_map(es) == entries_map(front).insert(es.last().0@, es.last().1@));
        assert forall|i: int| 0 <= i < es.len() implies #[trigger] entries_map(
            es,
        ).contains_key(es[i].0@) && entries_map(es)[es[i].0@] == es[i].1@ by {
            if i < es.len() - 1 {
                assert(front[i] == es[i]);
                assert(es[i].0@ != es[es.len() - 1].0@);
                assert(entries_map(front).contains_key(front[i].0@));
            }
        }
        assert forall|k: Seq<char>| #[trigger] entries_map(es).contains_key(k) implies exists|i: int|
            0 <= i < es.len() && es[i].0@ == k by {
            if k != es.last().0@ {
                assert(entries_map(front).contains_key(k));
                let i = choose|i: int| 0 <= i < front.len() && front[i].0@ == k;
                assert(es[i] == front[i]);
            } else {
                assert(es[es.len() - 1].0@ == k);
            }
        }
    }
}

/// The entries of a `HashMap`, each key with its value, in the map's own
/// iteration order: `labels.iter()` with every key and value cloned.
/// States that the entries are exactly those of the map; the order, which
/// depends on the hasher's seed, is left unsaid.
#[verifier::external_body]
fn hash_map_entries(labels: &HashMap<String, String>) -> (r: Vec<(String, String)>)
    ensures
        distinct_keys(r@),
        forall|i: int|
            0 <= i < r@.len() ==> labels@.contains_key(#[trigger] r@[i].0) && labels@[r@[i].0]
                == r@[i].1,
        forall|s: String| #[trigger]
            labels@.contains_key(s) ==> exists|i: int| 0 <= i < r@.len() && r@[i].0 == s,
{
    labels.iter().map(|(k, v)| (k.clone(), v.clone())).collect()
}

/// The entries of a `HashMap` describe the same map as the `HashMap` itself.
proof fn lemma_entries_describe_map(es: Seq<(String, String)>, m: Map<String, String>)
    requires
        distinct_keys(es),
        forall|i: int|
            0 <= i < es.len() ==> m.contains_key(#[trigger] es[i].0) && m[es[i].0] == es[i].1,
        forall|s: String| #[trigger] m.contains_key(s) ==> exists|i: int| 0 <= i < es.len() && es[i].0 == s,
    ensures
        entries_map(es) == string_map_view(m),
{
    lemma_entries_map(es);
    let a = entries_map(es);
    let b = string_map_view(m);
    assert forall|k: Seq<char>| a.contains_key(k) <==> b.contains_key(k) by {
        if a.contains_key(k) {
            let i = choose|i: int| 0 <= i < es.len() && es[i].0@ == k;
            assert(m.contains_key(es[i].0) && es[i].0@ == k);
        }
        if b.contains_key(k) {
            let s = choose|s: String| m.contains_key(s) && s@ == k;
            let i = choose|i: int| 0 <= i < es.len() && es[i].0 == s;
            assert(a.contains_key(es[i].0@));
        }
    }
    assert forall|k: Seq<char>| a.contains_key(k) implies a[k] == b[k] by {
        let s = choose|s: String| m.contains_key(s) && s@ == k;
        let i = choose|i: int| 0 <= i < es.len() && es[i].0 == s;
        assert(a[es[i].0@] == es[i].1@);
    }
    assert(a =~= b);
}

/// The entries of a label `HashMap`, with the map they describe.
pub(crate) fn label_entries(labels: &HashMap<String, String>) -> (r: Vec<(String, String)>)
    ensures
        distinct_keys(r@),
        entries_map(r@) == string_map_view(labels@),
{
    let r = hash_map_entries(labels);
    proof {
        lemma_entries_describe_map(r@, labels@);
    }
    r
}

/// The position of the entry whose key is `key`.
pub(crate) fn find_key(entries: &Vec<(String, String)>, key: &str) -> (r: Option<usize>)
    requires
        distinct_keys(entries@),
    ensures
        match r {
            Some(i) => i < entries@.len() && entries@[i as int].0@ == key@ && entries_map(
                entries@,
            ).contains_key(key@) && entries_map(entries@)[key@] == entries@[i as int].1@,
            None => !entries_map(entries@).contains_key(key@),
        },
{
    let mut i: usize = 0;
    while i < entries.len()
        invariant
            distinct_keys(entries@),
            i <= entries@.len(),
            forall|j: int| 0 <= j < i ==> entries@[j].0@ != key@,
        decreases entries@.len() - i,
    {
        if str_equals(entries[i].0.as_str(), key) {
            proof {
                lemma_entries_map(entries@);
            }
            assert(entries_map(entries@).contains_key(entries@[i as int].0@));
            return Some(i);
        }
        i = i + 1;
    }
    proof {
        lemma_entries_map(entries@);
    }
    None
}

/// The label that switches backing up on.
pub open spec fn enable_key() -> Seq<char> {
    "bdf.enable"@
}

/// The label that names the extraction method.
pub open spec fn extraction_type_key() -> Seq<char> {
    "bdf.extraction_type"@
}

/// The label that says whether the container keeps running during extraction.
pub open spec fn online_key() -> Seq<char> {
    "bdf.online"@
}

/// Labels whose key starts with this name a file path to back up.
pub open spec fn file_path_prefix() -> Seq<char> {
    "bdf.file_path"@
}

/// Every label of the tool starts with this.
pub open spec fn label_prefix() -> Seq<char> {
    "bdf."@
}

/// The three labels that every container taking part must carry.
pub open spec fn required_keys_present(m: Map<Seq<char>, Seq<char>>) -> bool {
    m.contains_key(enable_key()) && m.contains_key(extraction_type_key()) && m.contains_key(
        online_key(),
    )
}

/// A flag label is set when it is present with the value `true`.
pub open spec fn flag_set(m: Map<Seq<char>, Seq<char>>, key: Seq<char>) -> bool {
    m.contains_key(key) && m[key] == "true"@
}

/// The extraction method a lower-case name stands for; `File` for any other.
pub open spec fn extraction_type_named(v: Seq<char>) -> ExtractionType {
    if v == "file"@ {
        ExtractionType::File
    } else if v == "tinydb"@ {
        ExtractionType::TinyDB
    } else if v == "sqlite"@ {
        ExtractionType::SQLite
    } else if v == "pocketbase"@ {
        ExtractionType::Pocketbase
    } else {
        ExtractionType::File
    }
}

/// A key that names a file path.
pub open spec fn is_file_path_key(k: Seq<char>) -> bool {
    has_prefix(k, file_path_prefix())
}

/// A key of the tool that is neither required nor a file path: it goes to
/// `other`, without its `bdf.` prefix.
pub open spec fn is_other_key(k: Seq<char>) -> bool {
    has_prefix(k, label_prefix()) && k != enable_key() && k != extraction_type_key() && k
        != online_key() && !is_file_path_key(k)
}

/// `ks` lists exactly the keys of `keys`, in strictly increasing
/// lexicographic order.
pub open spec fn ordered_listing(ks: Seq<Seq<char>>, keys: Set<Seq<char>>) -> bool {
    &&& forall|i: int, j: int| 0 <= i < j < ks.len() ==> precedes(ks[i], ks[j])
    &&& forall|k: Seq<char>| keys.contains(k) <==> ks.contains(k)
}

/// The keys of `m` that name file paths.
pub open spec fn file_path_keys(m: Map<Seq<char>, Seq<char>>) -> Set<Seq<char>> {
    Set::new(|k: Seq<char>| m.contains_key(k) && is_file_path_key(k))
}

/// The keys of `m` that go to `other`.
pub open spec fn other_keys(m: Map<Seq<char>, Seq<char>>) -> Set<Seq<char>> {
    Set::new(|k: Seq<char>| m.contains_key(k) && is_other_key(k))
}

/// A set has only one ordered listing.
pub proof fn lemma_ordered_listing_unique(a: Seq<Seq<char>>, b: Seq<Seq<char>>, keys: Set<Seq<char>>)
    requires
        ordered_listing(a, keys),
        ordered_listing(b, keys),
    ensures
        a == b,
    decreases a.len(),
{
    if a.len() == 0 {
        if b.len() > 0 {
            assert(keys.contains(b[0]));
            assert(a.contains(b[0]));
        }
        assert(a =~= b);
    } else {
        assert(keys.contains(a[0]));
        assert(b.contains(a[0]));
        assert(b.len() > 0);
        assert(keys.contains(b[0]));
        assert(a.contains(b[0]));
        let i = choose|i: int| 0 <= i < a.len() && a[i] == b[0];
        let j = choose|j: int| 0 <= j < b.len() && b[j] == a[0];
        if a[0] != b[0] {
            assert(i > 0 && j > 0);
            assert(precedes(a[0], b[0]));
            assert(precedes(b[0], a[0]));
            crate::text::lemma_precedes_transitive(a[0], b[0], a[0]);
            crate::text::lemma_precedes_irreflexive(a[0]);
        }
        let ra = a.drop_first();
        let rb = b.drop_first();
        let rest = keys.remove(a[0]);
        assert forall|k: Seq<char>| rest.contains(k) <==> ra.contains(k) by {
            if ra.contains(k) {
                let p = choose|p: int| 0 <= p < ra.len() && ra[p] == k;
                assert(a[p + 1] == k);
                assert(precedes(a[0], a[p + 1]));
                if k == a[0] {
                    crate::text::lemma_precedes_irreflexive(k);
                }
            }
            if rest.contains(k) {
                assert(a.contains(k));
                let p = choose|p: int| 0 <= p < a.len() && a[p] == k;
                assert(p != 0);
                assert(ra[p - 1] == k);
            }
        }
        assert forall|k: Seq<char>| rest.contains(k) <==> rb.contains(k) by {
            if rb.contains(k) {
                let p = choose|p: int| 0 <= p < rb.len() && rb[p] == k;
                assert(b[p + 1] == k);
                assert(precedes(b[0], b[p + 1]));
                if k == b[0] {
                    crate::text::lemma_precedes_irreflexive(k);
                }
            }
            if rest.contains(k) {
                assert(b.contains(k));
                let p = choose|p: int| 0 <= p < b.len() && b[p] == k;
                assert(p != 0);
                assert(rb[p - 1] == k);
            }
        }
        assert forall|x: int, y: int| 0 <= x < y < ra.len() implies precedes(ra[x], ra[y]) by {
            assert(ra[x] == a[x + 1] && ra[y] == a[y + 1]);
        }
        assert forall|x: int, y: int| 0 <= x < y < rb.len() implies precedes(rb[x], rb[y]) by {
            assert(rb[x] == b[x + 1] && rb[y] == b[y + 1]);
        }
        lemma_ordered_listing_unique(ra, rb, rest);
        assert(a =~= seq![a[0]] + ra);
        assert(b =~= seq![b[0]] + rb);
    }
}

/// The file paths of `m`: the values of its file-path keys, ordered by key.
pub open spec fn file_paths_of(paths: Seq<Seq<char>>, m: Map<Seq<char>, Seq<char>>) -> bool {
    exists|ks: Seq<Seq<char>>|
        ordered_listing(ks, file_path_keys(m)) && paths == ks.map_values(|k: Seq<char>| m[k])
}

/// The other labels of `m`, ordered by key, each key without its `bdf.` prefix.
pub open spec fn other_labels_of(
    other: Seq<(Seq<char>, Seq<char>)>,
    m: Map<Seq<char>, Seq<char>>,
) -> bool {
    exists|ks: Seq<Seq<char>>|
        ordered_listing(ks, other_keys(m)) && other == ks.map_values(
            |k: Seq<char>| (k.subrange(label_prefix().len() as int, k.len() as int), m[k]),
        )
}

/// The parsed labels agree with the label map `m` that carries the required keys.
pub open spec fn parsed_from(l: Labels, m: Map<Seq<char>, Seq<char>>) -> bool {
    &&& l.enabled == flag_set(m, enable_key())
    &&& l.extraction_type == extraction_type_named(m[extraction_type_key()])
    &&& l.online == flag_set(m, online_key())
    &&& file_paths_of(views(l.file_paths@), m)
    &&& l.other matches Some(o) && other_labels_of(entry_views(o@), m)
}

/// Parsing depends on the label map alone: two parses of the same map, for
/// instance from entries listed in different orders, agree on every field.
pub proof fn lemma_parse_depends_on_map_only(l1: Labels, l2: Labels, m: Map<Seq<char>, Seq<char>>)
    requires
        parsed_from(l1, m),
        parsed_from(l2, m),
    ensures
        l1.enabled == l2.enabled,
        l1.extraction_type == l2.extraction_type,
        l1.online == l2.online,
        views(l1.file_paths@) == views(l2.file_paths@),
        entry_views(l1.other.unwrap()@) == entry_views(l2.other.unwrap()@),
{
    let ks1 = choose|ks: Seq<Seq<char>>|
        ordered_listing(ks, file_path_keys(m)) && views(l1.file_paths@) == ks.map_values(
            |k: Seq<char>| m[k],
        );
    let ks2 = choose|ks: Seq<Seq<char>>|
        ordered_listing(ks, file_path_keys(m)) && views(l2.file_paths@) == ks.map_values(
            |k: Seq<char>| m[k],
        );
    lemma_ordered_listing_unique(ks1, ks2, file_path_keys(m));
    let os1 = choose|ks: Seq<Seq<char>>|
        ordered_listing(ks, other_keys(m)) && entry_views(l1.other.unwrap()@) == ks.map_values(
            |k: Seq<char>| (k.subrange(label_prefix().len() as int, k.len() as int), m[k]),
        );
    let os2 = choose|ks: Seq<Seq<char>>|
        ordered_listing(ks, other_keys(m)) && entry_views(l2.other.unwrap()@) == ks.map_values(
            |k: Seq<char>| (k.subrange(label_prefix().len() as int, k.len() as int), m[k]),
        );
    lemma_ordered_listing_unique(os1, os2, other_keys(m));
}

/// What parsing the label map `m` gives.
pub open spec fn parse_outcome(r: Result<Labels, String>, m: Map<Seq<char>, Seq<char>>) -> bool {
    match r {
        Ok(l) => required_keys_present(m) && parsed_from(l, m),
        Err(e) => !required_keys_present(m) && e@ == "Missing required label keys"@,
    }
}

/// The labels of a container, as the tool reads them.
#[derive(Debug, Clone)]
pub struct Labels {
    pub enabled: bool,
    pub extraction_type: ExtractionType,
    pub online: bool,
    /// The paths to back up, ordered by the keys that name them.
    pub file_paths: Vec<String>,
    /// The remaining `bdf.` labels, without that prefix, ordered by key.
    pub other: Option<Vec<(String, String)>>,
}

/// The required label keys, each under its short name: `enable`,
/// `extraction_type` and `online`.
pub fn label_keys() -> (r: Vec<(String, String)>)
    ensures
        entry_views(r@) == seq![
            ("enable"@, enable_key()),
            ("extraction_type"@, extraction_type_key()),
            ("online"@, online_key()),
        ],
{
    let mut r: Vec<(String, String)> = Vec::new();
    r.push((String::from_str("enable"), String::from_str("bdf.enable")));
    r.push((String::from_str("extraction_type"), String::from_str("bdf.extraction_type")));
    r.push((String::from_str("online"), String::from_str("bdf.online")));
    assert(entry_views(r@) =~= seq![
        ("enable"@, enable_key()),
        ("extraction_type"@, extraction_type_key()),
        ("online"@, online_key()),
    ]);
    r
}


/// The key of the entry at position `x`.
pub open spec fn key_at(es: Seq<(String, String)>, x: usize) -> Seq<char> {
    es[x as int].0@
}

/// Positions of all entries, ordered so that their keys strictly increase.
fn key_order(entries: &Vec<(String, String)>) -> (order: Vec<usize>)
    requires
        distinct_keys(entries@),
    ensures
        order@.len() == entries@.len(),
        forall|a: int| 0 <= a < order@.len() ==> order@[a] < entries@.len(),
        forall|x: usize| x < entries@.len() ==> order@.contains(x),
        forall|a: int, b: int|
            0 <= a < b < order@.len() ==> precedes(
                key_at(entries@, order@[a]),
                key_at(entries@, order@[b]),
            ),
{
    let n = entries.len();
    let mut remaining: Vec<usize> = Vec::new();
    let mut x: usize = 0;
    while x < n
        invariant
            n == entries@.len(),
            x <= n,
            remaining@ == Seq::new(x as nat, |i: int| i as usize),
        decreases n - x,
    {
        remaining.push(x);
        x = x + 1;
        assert(remaining@ =~= Seq::new(x as nat, |i: int| i as usize));
    }
    assert forall|y: usize| y < n implies remaining@.contains(y) by {
        assert(remaining@[y as int] == y);
    }
    let mut order: Vec<usize> = Vec::new();
    while remaining.len() > 0
        invariant
            n == entries@.len(),
            distinct_keys(entries@),
            order@.len() + remaining@.len() == n,
            forall|a: int| 0 <= a < order@.len() ==> order@[a] < n,
            forall|a: int| 0 <= a < remaining@.len() ==> remaining@[a] < n,
            forall|a: int, b: int|
                0 <= a < remaining@.len() && 0 <= b < remaining@.len() && a != b
                    ==> remaining@[a] != remaining@[b],
            forall|y: usize| y < n ==> order@.contains(y) || remaining@.contains(y),
            forall|a: int, b: int|
                0 <= a < b < order@.len() ==> precedes(
                    key_at(entries@, order@[a]),
                    key_at(entries@, order@[b]),
                ),
            forall|a: int, b: int|
                0 <= a < order@.len() && 0 <= b < remaining@.len() ==> precedes(
                    key_at(entries@, order@[a]),
                    key_at(entries@, remaining@[b]),
                ),
        decreases remaining@.len(),
    {
        let mut best: usize = 0;
        let mut j: usize = 1;
        while j < remaining.len()
            invariant
                n == entries@.len(),
                distinct_keys(entries@),
                forall|a: int| 0 <= a < remaining@.len() ==> remaining@[a] < n,
                forall|a: int, b: int|
                    0 <= a < remaining@.len() && 0 <= b < remaining@.len() && a != b
                        ==> remaining@[a] != remaining@[b],
                best < j <= remaining@.len(),
                forall|c: int|
                    0 <= c < j && c != best ==> precedes(
                        key_at(entries@, remaining@[best as int]),
                        key_at(entries@, remaining@[c]),
                    ),
            decreases remaining@.len() - j,
        {
            let kj = entries[remaining[j]].0.as_str();
            let kb = entries[remaining[best]].0.as_str();
            if str_precedes(kj, kb) {
                proof {
                    assert forall|c: int| 0 <= c < j + 1 && c != j implies precedes(
                        key_at(entries@, remaining@[j as int]),
                        key_at(entries@, remaining@[c]),
                    ) by {
                        if c != best {
                            crate::text::lemma_precedes_transitive(
                                key_at(entries@, remaining@[j as int]),
                                key_at(entries@, remaining@[best as int]),
                                key_at(entries@, remaining@[c]),
                            );
                        }
                    }
                }
                best = j;
            } else {
                proof {
                    assert(remaining@[j as int] != remaining@[best as int]);
                    crate::text::lemma_precedes_total(
                        key_at(entries@, remaining@[j as int]),
                        key_at(entries@, remaining@[best as int]),
                    );
                }
            }
            j = j + 1;
        }
        let ghost old_remaining = remaining@;
        let ghost old_order = order@;
        let chosen = remaining.remove(best);
        order.push(chosen);
        proof {
            assert(remaining@ == old_remaining.remove(best as int));
            assert forall|a: int, b: int|
                0 <= a < b < order@.len() implies precedes(
                key_at(entries@, order@[a]),
                key_at(entries@, order@[b]),
            ) by {
                if b == order@.len() - 1 {
                    assert(order@[b] == old_remaining[best as int]);
                    assert(order@[a] == old_order[a]);
                } else {
                    assert(order@[a] == old_order[a] && order@[b] == old_order[b]);
                }
            }
            assert forall|a: int, b: int|
                0 <= a < order@.len() && 0 <= b < remaining@.len() implies precedes(
                key_at(entries@, order@[a]),
                key_at(entries@, remaining@[b]),
            ) by {
                let c = if b < best { b } else { b + 1 };
                assert(remaining@[b] == old_remaining[c]);
                if a == order@.len() - 1 {
                    assert(order@[a] == old_remaining[best as int]);
                } else {
                    assert(order@[a] == old_order[a]);
                }
            }
            assert forall|a: int, b: int|
                0 <= a < remaining@.len() && 0 <= b < remaining@.len() && a != b implies remaining@[a]
                != remaining@[b] by {
                let ca = if a < best { a } else { a + 1 };
                let cb = if b < best { b } else { b + 1 };
                assert(remaining@[a] == old_remaining[ca]);
                assert(remaining@[b] == old_remaining[cb]);
            }
            assert forall|y: usize| y < n implies order@.contains(y) || remaining@.contains(y) by {
                if old_order.contains(y) {
                    let a = choose|a: int| 0 <= a < old_order.len() && old_order[a] == y;
                    assert(order@[a] == y);
                } else {
                    let c = choose|c: int| 0 <= c < old_remaining.len() && old_remaining[c] == y;
                    if c == best {
                        assert(order@[order@.len() - 1] == y);
                    } else if c < best {
                        assert(remaining@[c] == y);
                    } else {
                        assert(remaining@[c - 1] == y);
                    }
                }
            }
            assert forall|a: int| 0 <= a < remaining@.len() implies remaining@[a] < n by {
                let c = if a < best { a } else { a + 1 };
                assert(remaining@[a] == old_remaining[c]);
            }
        }
    }
    order
}


/// Whether `key` is one of the three required label keys.
fn is_required_key(key: &str) -> (r: bool)
    ensures
        r == (key@ == enable_key() || key@ == extraction_type_key() || key@ == online_key()),
{
    str_equals(key, "bdf.enable") || str_equals(key, "bdf.extraction_type") || str_equals(
        key,
        "bdf.online",
    )
}

/// Whether the flag label `key` is present with the value `true`.
fn flag_value(entries: &Vec<(String, String)>, key: &str) -> (r: bool)
    requires
        distinct_keys(entries@),
    ensures
        r == flag_set(entries_map(entries@), key@),
{
    match find_key(entries, key) {
        Some(i) => str_equals(entries[i].1.as_str(), "true"),
        None => false,
    }
}

/// The extraction method a lower-case name stands for.
fn extraction_type_from_name(name: &str) -> (r: ExtractionType)
    ensures
        r == extraction_type_named(name@),
{
    if str_equals(name, "file") {
        ExtractionType::File
    } else if str_equals(name, "tinydb") {
        ExtractionType::TinyDB
    } else if str_equals(name, "sqlite") {
        ExtractionType::SQLite
    } else if str_equals(name, "pocketbase") {
        ExtractionType::Pocketbase
    } else {
        ExtractionType::File
    }
}

/// The value of the first entry whose key is `key`.
pub open spec fn lookup(es: Seq<(Seq<char>, Seq<char>)>, key: Seq<char>) -> Option<Seq<char>>
    decreases es.len(),
{
    if es.len() == 0 {
        None
    } else if es[0].0 == key {
        Some(es[0].1)
    } else {
        lookup(es.drop_first(), key)
    }
}

impl Labels {
    /// The value of the other label `key` (given without its `bdf.` prefix).
    pub fn other_value(&self, key: &str) -> (r: Option<&String>)
        ensures
            match self.other {
                Some(o) => match r {
                    Some(v) => lookup(entry_views(o@), key@) == Some(v@),
                    None => lookup(entry_views(o@), key@) is None,
                },
                None => r is None,
            },
    {
        match &self.other {
            None => None,
            Some(o) => {
                let mut i: usize = 0;
                assert(entry_views(o@).skip(0) =~= entry_views(o@));
                while i < o.len()
                    invariant
                        self.other == Some(*o),
                        i <= o@.len(),
                        lookup(entry_views(o@), key@) == lookup(entry_views(o@).skip(i as int), key@),
                    decreases o@.len() - i,
                {
                    let ghost rest = entry_views(o@).skip(i as int);
                    assert(rest.len() > 0);
                    assert(rest[0] == (o@[i as int].0@, o@[i as int].1@));
                    if str_equals(o[i].0.as_str(), key) {
                        assert(lookup(rest, key@) == Some(o@[i as int].1@));
                        return Some(&o[i].1);
                    }
                    assert(rest.drop_first() =~= entry_views(o@).skip(i + 1));
                    i = i + 1;
                }
                assert(entry_views(o@).skip(i as int).len() == 0);
                None
            },
        }
    }

    /// Whether the entries carry every required label key.
    fn are_required_keys_present(entries: &Vec<(String, String)>) -> (r: bool)
        requires
            distinct_keys(entries@),
        ensures
            r == required_keys_present(entries_map(entries@)),
    {
        find_key(entries, "bdf.enable").is_some() && find_key(entries, "bdf.extraction_type").is_some()
            && find_key(entries, "bdf.online").is_some()
    }

    pub fn new(
        enabled: bool,
        extraction_type: ExtractionType,
        online: bool,
        file_paths: Vec<String>,
        other: Option<Vec<(String, String)>>,
    ) -> (l: Labels)
        ensures
            l.enabled == enabled,
            l.extraction_type == extraction_type,
            l.online == online,
            l.file_paths == file_paths,
            l.other == other,
    {
        Labels { enabled, extraction_type, online, file_paths, other }
    }

    /// Parses the labels of a container, given as a `HashMap`.
    pub fn from_labels(labels: &HashMap<String, String>) -> (r: Result<Labels, String>)
        ensures
            parse_outcome(r, string_map_view(labels@)),
    {
        let entries = label_entries(labels);
        Self::from_entries(&entries)
    }

    /// Parses the labels of a container, given as entries with distinct keys.
    /// Fails when a required key is missing; otherwise reads the two flags
    /// and the extraction method, and gathers file paths and other labels in
    /// the order of their keys.
    pub fn from_entries(entries: &Vec<(String, String)>) -> (r: Result<Labels, String>)
        requires
            distinct_keys(entries@),
        ensures
            parse_outcome(r, entries_map(entries@)),
    {
        let ghost m = entries_map(entries@);
        if !Self::are_required_keys_present(entries) {
            return Err(String::from_str("Missing required label keys"));
        }
        let enabled = flag_value(entries, "bdf.enable");
        let extraction_type = match find_key(entries, "bdf.extraction_type") {
            Some(i) => extraction_type_from_name(entries[i].1.as_str()),
            None => ExtractionType::File,
        };
        let online = flag_value(entries, "bdf.online");
        let order = key_order(entries);
        let prefix_len = "bdf.".unicode_len();
        let mut file_paths: Vec<String> = Vec::new();
        let mut other: Vec<(String, String)> = Vec::new();
        let ghost mut fks: Seq<Seq<char>> = Seq::empty();
        let ghost mut oks: Seq<Seq<char>> = Seq::empty();
        proof {
            lemma_entries_map(entries@);
            assert(views(file_paths@) =~= fks.map_values(|k: Seq<char>| m[k]));
            assert(entry_views(other@) =~= oks.map_values(
                |k: Seq<char>| (k.subrange(label_prefix().len() as int, k.len() as int), m[k]),
            ));
        }
        let mut a: usize = 0;
        while a < order.len()
            invariant
                distinct_keys(entries@),
                m == entries_map(entries@),
                forall|i: int|
                    0 <= i < entries@.len() ==> #[trigger] m.contains_key(entries@[i].0@)
                        && m[entries@[i].0@] == entries@[i].1@,
                order@.len() == entries@.len(),
                forall|c: int| 0 <= c < order@.len() ==> order@[c] < entries@.len(),
                forall|c: int, d: int|
                    0 <= c < d < order@.len() ==> precedes(
                        key_at(entries@, order@[c]),
                        key_at(entries@, order@[d]),
                    ),
                a <= order@.len(),
                prefix_len == label_prefix().len(),
                forall|i: int, j: int| 0 <= i < j < fks.len() ==> precedes(fks[i], fks[j]),
                forall|i: int, b: int|
                    0 <= i < fks.len() && a <= b < order@.len() ==> precedes(
                        fks[i],
                        key_at(entries@, order@[b]),
                    ),
                forall|k: Seq<char>|
                    fks.contains(k) <==> (exists|p: int|
                        0 <= p < a && #[trigger] key_at(entries@, order@[p]) == k
                            && is_file_path_key(k)),
                views(file_paths@) == fks.map_values(|k: Seq<char>| m[k]),
                forall|i: int, j: int| 0 <= i < j < oks.len() ==> precedes(oks[i], oks[j]),
                forall|i: int, b: int|
                    0 <= i < oks.len() && a <= b < order@.len() ==> precedes(
                        oks[i],
                        key_at(entries@, order@[b]),
                    ),
                forall|k: Seq<char>|
                    oks.contains(k) <==> (exists|p: int|
                        0 <= p < a && #[trigger] key_at(entries@, order@[p]) == k && is_other_key(
                            k,
                        )),
                entry_views(other@) == oks.map_values(
                    |k: Seq<char>| (k.subrange(label_prefix().len() as int, k.len() as int), m[k]),
                ),
            decreases order@.len() - a,
        {
            let x = order[a];
            let key = entries[x].0.as_str();
            let ghost k = key@;
            assert(k == key_at(entries@, order@[a as int]));
            assert(m.contains_key(entries@[x as int].0@));
            assert(m[k] == entries@[x as int].1@);
            let ghost old_fks = fks;
            let ghost old_oks = oks;
            let ghost old_paths = file_paths@;
            let ghost old_other = other@;
            if starts_with(key, "bdf.file_path") {
                let v = entries[x].1.clone();
                file_paths.push(v);
                proof {
                    assert(views(file_paths@) =~= views(old_paths).push(v@));
                    fks = fks.push(k);
                    assert(fks.map_values(|k: Seq<char>| m[k]) =~= old_fks.map_values(
                        |k: Seq<char>| m[k],
                    ).push(m[k]));
                    assert(views(file_paths@) =~= fks.map_values(|k: Seq<char>| m[k]));
                }
            } else if starts_with(key, "bdf.") && !is_required_key(key) {
                let short = String::from_str(key.substring_char(prefix_len, key.unicode_len()));
                let v = entries[x].1.clone();
                let ghost sv = short@;
                assert(sv == k.subrange(label_prefix().len() as int, k.len() as int));
                other.push((short, v));
                proof {
                    assert(entry_views(other@) =~= entry_views(old_other).push((sv, v@)));
                    oks = oks.push(k);
                    assert(oks.map_values(
                        |k: Seq<char>|
                            (k.subrange(label_prefix().len() as int, k.len() as int), m[k]),
                    ) =~= old_oks.map_values(
                        |k: Seq<char>|
                            (k.subrange(label_prefix().len() as int, k.len() as int), m[k]),
                    ).push((sv, m[k])));
                    assert(entry_views(other@) =~= oks.map_values(
                        |k: Seq<char>|
                            (k.subrange(label_prefix().len() as int, k.len() as int), m[k]),
                    ));
                }
            }
            proof {
                assert forall|i: int, j: int| 0 <= i < j < fks.len() implies precedes(
                    fks[i],
                    fks[j],
                ) by {
                    if j == old_fks.len() {
                        assert(fks[i] == old_fks[i]);
                    }
                }
                assert forall|i: int, j: int| 0 <= i < j < oks.len() implies precedes(
                    oks[i],
                    oks[j],
                ) by {
                    if j == old_oks.len() {
                        assert(oks[i] == old_oks[i]);
                    }
                }
                assert forall|i: int, b: int|
                    0 <= i < fks.len() && a + 1 <= b < order@.len() implies precedes(
                    fks[i],
                    key_at(entries@, order@[b]),
                ) by {
                    if i == old_fks.len() {
                        assert(fks[i] == key_at(entries@, order@[a as int]));
                    } else {
                        assert(fks[i] == old_fks[i]);
                    }
                }
                assert forall|i: int, b: int|
                    0 <= i < oks.len() && a + 1 <= b < order@.len() implies precedes(
                    oks[i],
                    key_at(entries@, order@[b]),
                ) by {
                    if i == old_oks.len() {
                        assert(oks[i] == key_at(entries@, order@[a as int]));
                    } else {
                        assert(oks[i] == old_oks[i]);
                    }
                }
                assert forall|kk: Seq<char>|
                    fks.contains(kk) <==> (exists|p: int|
                        0 <= p < a + 1 && #[trigger] key_at(entries@, order@[p]) == kk
                            && is_file_path_key(kk)) by {
                    if fks.contains(kk) {
                        if old_fks.contains(kk) {
                        } else {
                            assert(kk == k);
                            assert(key_at(entries@, order@[a as int]) == kk);
                        }
                    }
                    if exists|p: int|
                        0 <= p < a + 1 && #[trigger] key_at(entries@, order@[p]) == kk
                            && is_file_path_key(kk) {
                        let p = choose|p: int|
                            0 <= p < a + 1 && #[trigger] key_at(entries@, order@[p]) == kk
                                && is_file_path_key(kk);
                        if p < a {
                            assert(old_fks.contains(kk));
                            let q = choose|q: int| 0 <= q < old_fks.len() && old_fks[q] == kk;
                            assert(fks[q] == kk);
                        } else {
                            assert(fks[fks.len() - 1] == kk);
                        }
                    }
                }
                assert forall|kk: Seq<char>|
                    oks.contains(kk) <==> (exists|p: int|
                        0 <= p < a + 1 && #[trigger] key_at(entries@, order@[p]) == kk
                            && is_other_key(kk)) by {
                    if oks.contains(kk) {
                        if old_oks.contains(kk) {
                        } else {
                            assert(kk == k);
                            assert(key_at(entries@, order@[a as int]) == kk);
                        }
                    }
                    if exists|p: int|
                        0 <= p < a + 1 && #[trigger] key_at(entries@, order@[p]) == kk
                            && is_other_key(kk) {
                        let p = choose|p: int|
                            0 <= p < a + 1 && #[trigger] key_at(entries@, order@[p]) == kk
                                && is_other_key(kk);
                        if p < a {
                            assert(old_oks.contains(kk));
                            let q = choose|q: int| 0 <= q < old_oks.len() && old_oks[q] == kk;
                            assert(oks[q] == kk);
                        } else {
                            assert(oks[oks.len() - 1] == kk);
                        }
                    }
                }
            }
            a = a + 1;
        }
        proof {
            assert forall|kk: Seq<char>| file_path_keys(m).contains(kk) <==> fks.contains(kk) by {
                if file_path_keys(m).contains(kk) {
                    let i = choose|i: int| 0 <= i < entries@.len() && entries@[i].0@ == kk;
                    assert(order@.contains(i as usize));
                    let p = choose|p: int| 0 <= p < order@.len() && order@[p] == i as usize;
                    assert(key_at(entries@, order@[p]) == kk);
                }
                if fks.contains(kk) {
                    let p = choose|p: int|
                        0 <= p < order@.len() && #[trigger] key_at(entries@, order@[p]) == kk
                            && is_file_path_key(kk);
                    assert(m.contains_key(entries@[order@[p] as int].0@));
                }
            }
            assert forall|kk: Seq<char>| other_keys(m).contains(kk) <==> oks.contains(kk) by {
                if other_keys(m).contains(kk) {
                    let i = choose|i: int| 0 <= i < entries@.len() && entries@[i].0@ == kk;
                    assert(order@.contains(i as usize));
                    let p = choose|p: int| 0 <= p < order@.len() && order@[p] == i as usize;
                    assert(key_at(entries@, order@[p]) == kk);
                }
                if oks.contains(kk) {
                    let p = choose|p: int|
                        0 <= p < order@.len() && #[trigger] key_at(entries@, order@[p]) == kk
                            && is_other_key(kk);
                    assert(m.contains_key(entries@[order@[p] as int].0@));
                }
            }
            assert(ordered_listing(fks, file_path_keys(m)));
            assert(ordered_listing(oks, other_keys(m)));
        }
        Ok(Labels { enabled, extraction_type, online, file_paths, other: Some(other) })
    }
}

} // verus!
