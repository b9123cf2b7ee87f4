//! Filling a backup: which containers take part, and what a finished backup records.
use vstd::prelude::*;

use crate::models::backup::Backup;
use crate::models::container::Container;
use crate::text::views;

verus! {

/// The sum of the sizes.
pub open spec fn total_size(sizes: Seq<u64>) -> int
    decreases sizes.len(),
{
    if sizes.len() == 0 {
        0
    } else {
        total_size(sizes.drop_last()) + sizes.last()
    }
}

/// The total of no sizes is `0`, and one more file adds its size to the
/// total: the size a completed backup records counts every file once.
pub proof fn lemma_total_size_adds_each_file(sizes: Seq<u64>, x: u64)
    ensures
        total_size(Seq::<u64>::empty()) == 0,
        total_size(sizes.push(x)) == total_size(sizes) + x,
{
    assert(sizes.push(x).drop_last() =~= sizes);
}

proof fn lemma_total_size_grows(sizes: Seq<u64>, i: int)
    requires
        0 <= i <= sizes.len(),
    ensures
        total_size(sizes.take(i)) <= total_size(sizes),
    decreases sizes.len() - i,
{
    if i < sizes.len() {
        lemma_total_size_grows(sizes, i + 1);
        assert(sizes.take(i + 1).drop_last() =~= sizes.take(i));
    } else {
        assert(sizes.take(i) =~= sizes);
    }
}

/// Records what a finished backup holds: its files, and as its size the sum
/// of the files' sizes (`sizes[i]` is the size of `contents[i]`).
pub fn complete_backup(backup: &mut Backup, contents: Vec<String>, sizes: &Vec<u64>)
    requires
        sizes@.len() == contents@.len(),
        total_size(sizes@) <= u64::MAX,
    ensures
        final(backup).spec_contents() == views(contents@),
        final(backup).spec_size() == total_size(sizes@),
        final(backup).spec_id() == old(backup).spec_id(),
        final(backup).spec_created_at() == old(backup).spec_created_at(),
        final(backup).spec_root() == old(backup).spec_root(),
{
    let mut total: u64 = 0;
    let mut i: usize = 0;
    assert(sizes@.take(0) =~= Seq::<u64>::empty());
    while i < sizes.len()
        invariant
            i <= sizes@.len(),
            total_size(sizes@) <= u64::MAX,
            total == total_size(sizes@.take(i as int)),
        decreases sizes@.len() - i,
    {
        proof {
            lemma_total_size_grows(sizes@, i + 1);
            assert(sizes@.take(i + 1).drop_last() =~= sizes@.take(i as int));
        }
        total = total + sizes[i];
        i = i + 1;
    }
    assert(sizes@.take(sizes@.len() as int) =~= sizes@);
    backup.complete(contents, total);
}

/// Positions of the containers whose labels enable backing up, in order.
pub fn enabled_containers(containers: &Vec<Container>) -> (r: Vec<usize>)
    ensures
        forall|a: int| 0 <= a < r@.len() ==> r@[a] < containers@.len(),
        forall|a: int, b: int| 0 <= a < b < r@.len() ==> r@[a] < r@[b],
        forall|x: usize| x < containers@.len() ==> (r@.contains(x) <==> containers@[x as int].labels.enabled),
{
    let mut r: Vec<usize> = Vec::new();
    let mut i: usize = 0;
    while i < containers.len()
        invariant
            i <= containers@.len(),
            forall|a: int| 0 <= a < r@.len() ==> r@[a] < i,
            forall|a: int, b: int| 0 <= a < b < r@.len() ==> r@[a] < r@[b],
            forall|x: usize| x < i ==> (r@.contains(x) <==> containers@[x as int].labels.enabled),
        decreases containers@.len() - i,
    {
        let ghost before = r@;
        if containers[i].labels.enabled {
            r.push(i);
            assert(r@[r@.len() - 1] == i);
        }
        assert forall|x: usize| x < i + 1 implies (r@.contains(x) <==> containers@[x as int].labels.enabled) by {
            if x < i {
                if r@.contains(x) {
                    let a = choose|a: int| 0 <= a < r@.len() && r@[a] == x;
                    if a < before.len() {
                        assert(before[a] == x);
                    }
                }
                if before.contains(x) {
                    let a = choose|a: int| 0 <= a < before.len() && before[a] == x;
                    assert(r@[a] == x);
                }
            } else {
                if r@.contains(x) && !containers@[x as int].labels.enabled {
                    let a = choose|a: int| 0 <= a < r@.len() && r@[a] == x;
                    assert(before[a] == x);
                }
            }
        }
        i = i + 1;
    }
    r
}

} // verus!
