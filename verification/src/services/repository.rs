//! Starting a new backup in a repository, rotating out the oldest backups
//! when the repository is full.
use vstd::prelude::*;

use crate::models::backup::Backup;
use crate::models::identity::is_hyphenated_uuid;
use crate::models::repo::Repository;
use crate::services::extraction::file::{
    is_named_segment, last_component, last_component_of, last_named_segment,
};
use crate::text::{joined, segments, str_equals};

verus! {

/// Where a backup created at `t` goes in a list ordered by creation time:
/// after every backup created at or before `t`.
pub open spec fn insertion_point(s: Seq<Backup>, t: u64) -> int
    decreases s.len(),
{
    if s.len() == 0 {
        0
    } else if s[0].spec_created_at() > t {
        0
    } else {
        1 + insertion_point(s.drop_first(), t)
    }
}

/// The backups ordered by creation time, oldest first; backups created at
/// the same time keep their relative order (a stable sort).
pub open spec fn sorted_by_time(s: Seq<Backup>) -> Seq<Backup>
    decreases s.len(),
{
    if s.len() == 0 {
        s
    } else {
        let front = sorted_by_time(s.drop_last());
        front.insert(insertion_point(front, s.last().spec_created_at()), s.last())
    }
}

/// How many backups a rotation removes from a repository of `len` backups
/// whose limit is `limit`.
pub open spec fn evicted_count(len: nat, limit: nat) -> nat {
    if len >= limit {
        (len - limit + 1) as nat
    } else {
        0
    }
}

/// The backups that a rotation removes: the oldest ones.
pub open spec fn evicted_by_rotation(s: Seq<Backup>, limit: nat) -> Seq<Backup> {
    sorted_by_time(s).take(evicted_count(s.len(), limit) as int)
}

/// The backups that remain after a rotation, oldest first.
pub open spec fn kept_after_rotation(s: Seq<Backup>, limit: nat) -> Seq<Backup> {
    sorted_by_time(s).skip(evicted_count(s.len(), limit) as int)
}

/// The backups a repository holds before its next backup is added: all of
/// them when there is room, else those that rotation keeps.
pub open spec fn kept_before_new_backup(s: Seq<Backup>, limit: nat) -> Seq<Backup> {
    if s.len() >= limit {
        kept_after_rotation(s, limit)
    } else {
        s
    }
}

/// The backups that starting a new backup removes.
pub open spec fn evicted_by_new_backup(s: Seq<Backup>, limit: nat) -> Seq<Backup> {
    if s.len() >= limit {
        evicted_by_rotation(s, limit)
    } else {
        Seq::<Backup>::empty()
    }
}

pub proof fn lemma_insertion_point_bounds(s: Seq<Backup>, t: u64)
    ensures
        0 <= insertion_point(s, t) <= s.len(),
    decreases s.len(),
{
    if s.len() > 0 {
        lemma_insertion_point_bounds(s.drop_first(), t);
    }
}

pub proof fn lemma_sorted_by_time_len(s: Seq<Backup>)
    ensures
        sorted_by_time(s).len() == s.len(),
    decreases s.len(),
{
    if s.len() > 0 {
        lemma_sorted_by_time_len(s.drop_last());
        lemma_insertion_point_bounds(sorted_by_time(s.drop_last()), s.last().spec_created_at());
    }
}

/// Sorts the backups by creation time, oldest first, keeping the order of
/// backups created at the same time.
fn sort_by_creation(v: &mut Vec<Backup>)
    ensures
        final(v)@ == sorted_by_time(old(v)@),
{
    let ghost orig = v@;
    let n = v.len();
    let mut i: usize = 0;
    assert(orig.take(0) =~= Seq::<Backup>::empty());
    assert(v@ =~= sorted_by_time(orig.take(0)) + orig.skip(0));
    while i < n
        invariant
            n == orig.len(),
            i <= n,
            v@ == sorted_by_time(orig.take(i as int)) + orig.skip(i as int),
        decreases n - i,
    {
        let ghost front = sorted_by_time(orig.take(i as int));
        proof {
            lemma_sorted_by_time_len(orig.take(i as int));
        }
        assert(v@[i as int] == orig[i as int]);
        let b = v.remove(i);
        assert(v@ =~= front + orig.skip(i + 1));
        let t = b.created_at();
        let mut j: usize = 0;
        assert(front.subrange(0, front.len() as int) =~= front);
        while j < i && v[j].created_at() <= t
            invariant
                front.len() == i,
                v@ == front + orig.skip(i + 1),
                j <= i,
                insertion_point(front, t) == j + insertion_point(front.subrange(j as int, i as int), t),
            decreases i - j,
        {
            let ghost rest = front.subrange(j as int, i as int);
            assert(rest.drop_first() =~= front.subrange(j + 1, i as int));
            assert(rest[0] == v@[j as int]);
            j = j + 1;
        }
        proof {
            if j < i {
                assert(front.subrange(j as int, i as int)[0] == v@[j as int]);
            } else {
                assert(front.subrange(j as int, i as int).len() == 0);
            }
        }
        v.insert(j, b);
        proof {
            let take_next = orig.take(i + 1);
            assert(take_next.drop_last() =~= orig.take(i as int));
            assert(take_next.last() == b);
            assert(v@ =~= sorted_by_time(take_next) + orig.skip(i + 1));
        }
        i = i + 1;
    }
    assert(orig.take(n as int) =~= orig);
    assert(v@ =~= sorted_by_time(orig));
}

/// Sorts the repository's backups oldest first and removes the oldest ones
/// until there is room for one more; returns the removed backups, oldest
/// first, for their files to be deleted.
fn rotate_backups(repo: &mut Repository) -> (evicted: Vec<Backup>)
    requires
        old(repo).spec_rotation_limit() >= 1,
    ensures
        evicted@ == evicted_by_rotation(old(repo).spec_backups(), old(repo).spec_rotation_limit() as nat),
        final(repo).spec_backups() == kept_after_rotation(
            old(repo).spec_backups(),
            old(repo).spec_rotation_limit() as nat,
        ),
        final(repo).same_settings(*old(repo)),
{
    let ghost sorted = sorted_by_time(repo.spec_backups());
    proof {
        lemma_sorted_by_time_len(repo.spec_backups());
    }
    sort_by_creation(repo.backups_mut());
    let limit = repo.rotation_limit();
    let mut evicted: Vec<Backup> = Vec::new();
    let ghost k = evicted_count(sorted.len(), limit as nat);
    assert(sorted.take(0) =~= Seq::<Backup>::empty());
    assert(sorted.skip(0) =~= sorted);
    while repo.backups().len() >= limit
        invariant
            limit == repo.spec_rotation_limit(),
            limit >= 1,
            evicted@.len() <= k,
            k == evicted_count(sorted.len(), limit as nat),
            evicted@ == sorted.take(evicted@.len() as int),
            repo.spec_backups() == sorted.skip(evicted@.len() as int),
            repo.same_settings(*old(repo)),
        decreases repo.spec_backups().len(),
    {
        let ghost before = evicted@.len();
        let oldest = repo.backups_mut().remove(0);
        evicted.push(oldest);
        assert(evicted@ =~= sorted.take(evicted@.len() as int));
        assert(repo.spec_backups() =~= sorted.skip(evicted@.len() as int));
    }
    evicted
}

/// The name a repository gets from the path it is created at: the last
/// component of the path when it names a file or directory (what
/// `Path::file_name` gives: not `/`, `.` or `..`), else the whole path.
pub open spec fn repository_name_of(path: Seq<char>) -> Seq<char> {
    match last_component(path) {
        Some(c) => if is_named_segment(c) && c != seq!['.', '.'] {
            c
        } else {
            path
        },
        None => path,
    }
}

/// Splitting `a/b`, where `b` holds no `/`, gives the pieces of `a` and then
/// `b`.
proof fn lemma_segments_of_joined(a: Seq<char>, b: Seq<char>)
    requires
        forall|i: int| 0 <= i < b.len() ==> b[i] != '/',
    ensures
        segments(joined(a, b)) == segments(a).push(b),
    decreases b.len(),
{
    let s = joined(a, b);
    if b.len() == 0 {
        assert(s.drop_last() =~= a);
        assert(s.last() == '/');
        assert(b =~= Seq::<char>::empty());
        assert(segments(s) == segments(s.drop_last()).push(Seq::<char>::empty()));
    } else {
        let b0 = b.drop_last();
        lemma_segments_of_joined(a, b0);
        assert(joined(a, b).drop_last() =~= joined(a, b0));
        assert(joined(a, b).last() == b.last());
        assert(b0.push(b.last()) =~= b);
        assert(b.last() != '/');
        let front = segments(s.drop_last());
        assert(front == segments(a).push(b0));
        assert(segments(s) == front.update(front.len() - 1, front.last().push(s.last())));
        assert(segments(a).push(b0).update(segments(a).len() as int, b0.push(b.last()))
            =~= segments(a).push(b));
    }
}

/// A repository created at `dir/name`, where `name` names a file or
/// directory (it is not empty, holds no `/`, and is neither `.` nor `..`),
/// is named `name`, whatever its first character; so is one created at
/// `dir/name/`.
pub proof fn lemma_repository_named_after_last_component(dir: Seq<char>, name: Seq<char>)
    requires
        name.len() > 0,
        forall|i: int| 0 <= i < name.len() ==> name[i] != '/',
        name != seq!['.'],
        name != seq!['.', '.'],
    ensures
        repository_name_of(joined(dir, name)) == name,
        repository_name_of(joined(joined(dir, name), Seq::empty())) == name,
{
    lemma_segments_of_joined(dir, name);
    let segs = segments(joined(dir, name));
    assert(segs.last() == name);
    assert(is_named_segment(name));
    assert(last_named_segment(segs) == Some(name));
    lemma_segments_of_joined(joined(dir, name), Seq::empty());
    let trailing = segments(joined(joined(dir, name), Seq::empty()));
    assert(trailing.drop_last() =~= segs);
    assert(!is_named_segment(trailing.last()));
}

/// A repository created at `dir/..` is named after the whole path: `..`
/// names no file or directory.
pub proof fn lemma_repository_at_parent_keeps_path(dir: Seq<char>)
    ensures
        repository_name_of(joined(dir, seq!['.', '.'])) == joined(dir, seq!['.', '.']),
{
    lemma_segments_of_joined(dir, seq!['.', '.']);
    let segs = segments(joined(dir, seq!['.', '.']));
    assert(segs.last() == seq!['.', '.']);
    assert(is_named_segment(seq!['.', '.']));
}

/// The name of a repository created at `path`.
pub fn repository_name(path: &str) -> (r: String)
    ensures
        r@ == repository_name_of(path@),
{
    proof {
        reveal_strlit(".");
        reveal_strlit("..");
        assert("."@ =~= seq!['.']);
        assert(".."@ =~= seq!['.', '.']);
    }
    match last_component_of(path) {
        Some(c) => {
            if c.unicode_len() > 0 && !str_equals(c.as_str(), ".") && !str_equals(c.as_str(), "..") {
                c
            } else {
                String::from_str(path)
            }
        },
        None => String::from_str(path),
    }
}

/// Starts a new, empty backup in the repository, stored at the repository's
/// location. When the repository already holds `rotation_limit` backups or
/// more, the oldest are rotated out first so that, with the new one, it
/// holds exactly `rotation_limit`. The new backup is the last one of the
/// repository; the backups rotated out are returned, oldest first, for
/// their files to be deleted. Fails with `Time went backwards`, leaving the
/// repository as it was, when the clock stands before the Unix epoch.
pub fn new_backup(repo: &mut Repository) -> (r: Result<Vec<Backup>, String>)
    requires
        old(repo).spec_rotation_limit() >= 1,
    ensures
        r matches Ok(evicted) ==> {
            &&& evicted@ == evicted_by_new_backup(
                old(repo).spec_backups(),
                old(repo).spec_rotation_limit() as nat,
            )
            &&& final(repo).spec_backups().drop_last() == kept_before_new_backup(
                old(repo).spec_backups(),
                old(repo).spec_rotation_limit() as nat,
            )
            &&& final(repo).spec_backups().len() >= 1
            &&& final(repo).spec_backups().last().spec_root() == old(repo).spec_location()
            &&& final(repo).spec_backups().last().spec_contents() == Seq::<Seq<char>>::empty()
            &&& final(repo).spec_backups().last().spec_size() == 0
            &&& is_hyphenated_uuid(final(repo).spec_backups().last().spec_id(), '7')
            &&& final(repo).same_settings(*old(repo))
        },
        r matches Err(e) ==> e@ == "Time went backwards"@ && *final(repo) == *old(repo),
{
    let backup = Backup::new(repo.location().clone())?;
    let evicted = if repo.backups_mut().len() >= repo.rotation_limit() {
        rotate_backups(repo)
    } else {
        Vec::new()
    };
    repo.add_backup(backup);
    assert(repo.spec_backups().drop_last() =~= kept_before_new_backup(
        old(repo).spec_backups(),
        old(repo).spec_rotation_limit() as nat,
    ));
    Ok(evicted)
}


proof fn lemma_insertion_point_splits(s: Seq<Backup>, t: u64)
    ensures
        forall|i: int| 0 <= i < insertion_point(s, t) ==> #[trigger] s[i].spec_created_at() <= t,
        insertion_point(s, t) < s.len() ==> s[insertion_point(s, t)].spec_created_at() > t,
    decreases s.len(),
{
    if s.len() > 0 && s[0].spec_created_at() <= t {
        let rest = s.drop_first();
        lemma_insertion_point_splits(rest, t);
        lemma_insertion_point_bounds(rest, t);
        assert forall|i: int| 0 <= i < insertion_point(s, t) implies #[trigger] s[i].spec_created_at()
            <= t by {
            if i > 0 {
                assert(s[i] == rest[i - 1]);
            }
        }
    }
}

/// Backups ordered by creation time really are in order: oldest first.
pub proof fn lemma_sorted_by_time_is_ordered(s: Seq<Backup>)
    ensures
        forall|i: int, j: int|
            0 <= i < j < sorted_by_time(s).len() ==> sorted_by_time(s)[i].spec_created_at()
                <= sorted_by_time(s)[j].spec_created_at(),
    decreases s.len(),
{
    if s.len() > 0 {
        let front = sorted_by_time(s.drop_last());
        let x = s.last();
        let t = x.spec_created_at();
        let p = insertion_point(front, t);
        lemma_sorted_by_time_is_ordered(s.drop_last());
        lemma_insertion_point_bounds(front, t);
        lemma_insertion_point_splits(front, t);
        let r = front.insert(p, x);
        assert(r == sorted_by_time(s));
        assert forall|i: int, j: int| 0 <= i < j < r.len() implies r[i].spec_created_at()
            <= r[j].spec_created_at() by {
            if j < p {
                assert(r[i] == front[i] && r[j] == front[j]);
            } else if j == p {
                assert(r[i] == front[i]);
            } else if i < p {
                assert(r[i] == front[i] && r[j] == front[j - 1]);
            } else if i == p {
                assert(r[j] == front[j - 1]);
                assert(front[p].spec_created_at() > t);
                if j - 1 > p {
                    assert(front[p].spec_created_at() <= front[j - 1].spec_created_at());
                }
            } else {
                assert(r[i] == front[i - 1] && r[j] == front[j - 1]);
            }
        }
    }
}

/// Ordering by creation time neither loses nor adds backups.
pub proof fn lemma_sorted_by_time_permutes(s: Seq<Backup>)
    ensures
        sorted_by_time(s).to_multiset() == s.to_multiset(),
    decreases s.len(),
{
    if s.len() > 0 {
        let front = sorted_by_time(s.drop_last());
        lemma_sorted_by_time_permutes(s.drop_last());
        lemma_sorted_by_time_len(s.drop_last());
        lemma_insertion_point_bounds(front, s.last().spec_created_at());
        vstd::seq_lib::to_multiset_insert(front, insertion_point(front, s.last().spec_created_at()), s.last());
        s.drop_last().to_multiset_ensures();
        assert(s.drop_last().push(s.last()) =~= s);
    }
}

/// After a new backup is started, a repository whose limit is at least one
/// holds at most `rotation_limit` backups: the new one and fewer than
/// `rotation_limit` older ones. A full repository (holding `rotation_limit`
/// backups or more) then holds exactly `rotation_limit`: the new one and
/// `rotation_limit - 1` old ones, so `len - rotation_limit + 1` are rotated
/// out. One with room keeps all its backups and loses none.
pub proof fn lemma_new_backup_respects_limit(s: Seq<Backup>, limit: nat)
    requires
        limit >= 1,
    ensures
        kept_before_new_backup(s, limit).len() + 1 <= limit,
        s.len() >= limit ==> kept_before_new_backup(s, limit).len() + 1 == limit,
        s.len() >= limit ==> evicted_by_new_backup(s, limit).len() == s.len() - limit + 1,
        s.len() < limit ==> kept_before_new_backup(s, limit) == s,
        s.len() < limit ==> evicted_by_new_backup(s, limit).len() == 0,
{
    lemma_sorted_by_time_len(s);
}

/// Rotation loses no backup: the removed ones and the kept ones together
/// are the backups the repository held.
pub proof fn lemma_rotation_keeps_every_backup_accounted(s: Seq<Backup>, limit: nat)
    requires
        limit >= 1,
    ensures
        (evicted_by_new_backup(s, limit) + kept_before_new_backup(s, limit)).to_multiset()
            == s.to_multiset(),
{
    if s.len() >= limit {
        lemma_sorted_by_time_permutes(s);
        lemma_sorted_by_time_len(s);
        let sorted = sorted_by_time(s);
        let k = evicted_count(s.len(), limit) as int;
        assert(sorted.take(k) + sorted.skip(k) =~= sorted);
    } else {
        assert(Seq::<Backup>::empty() + s =~= s);
    }
}

/// Rotation removes the oldest backups: none of the removed backups was
/// created after any of the kept ones.
pub proof fn lemma_rotation_evicts_oldest(s: Seq<Backup>, limit: nat)
    requires
        limit >= 1,
    ensures
        forall|i: int, j: int|
            0 <= i < evicted_by_new_backup(s, limit).len() && 0 <= j < kept_before_new_backup(
                s,
                limit,
            ).len() ==> evicted_by_new_backup(s, limit)[i].spec_created_at()
                <= kept_before_new_backup(s, limit)[j].spec_created_at(),
{
    if s.len() >= limit {
        lemma_sorted_by_time_is_ordered(s);
        lemma_sorted_by_time_len(s);
        let sorted = sorted_by_time(s);
        let k = evicted_count(s.len(), limit) as int;
        assert forall|i: int, j: int|
            0 <= i < sorted.take(k).len() && 0 <= j < sorted.skip(k).len() implies sorted.take(
            k,
        )[i].spec_created_at() <= sorted.skip(k)[j].spec_created_at() by {
            assert(sorted.take(k)[i] == sorted[i]);
            assert(sorted.skip(k)[j] == sorted[k + j]);
        }
    }
}

} // verus!
