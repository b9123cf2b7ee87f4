//! Handing finished backups on to mirrors: which backups a mirror keeps, and where.
use vstd::prelude::*;

use crate::models::backup::Backup;
use crate::models::mirror::{Mirror, MirrorConfig, MirrorType, StorageBackend};
use crate::text::{join_path, joined};

verus! {

/// Whether a mirror of type `mt`, with `counter` backups still to skip,
/// keeps the next backup.
pub open spec fn keeps_next(mt: MirrorType, counter: usize) -> bool {
    match mt {
        MirrorType::Full => true,
        MirrorType::Partial { .. } => counter == 0,
    }
}

/// The counter after one keep-or-skip decision: a `Partial { n }` mirror
/// that keeps resets to `n - 1`, one that skips counts down; a `Full` mirror
/// leaves it alone.
pub open spec fn next_counter(mt: MirrorType, counter: usize) -> usize {
    match mt {
        MirrorType::Full => counter,
        MirrorType::Partial { n } => if counter == 0 {
            (n - 1) as usize
        } else {
            (counter - 1) as usize
        },
    }
}

/// The counter can advance without underflow: a `Partial { 0 }` mirror
/// whose counter is `0` cannot reset it to `n - 1`.
pub open spec fn can_advance(mt: MirrorType, counter: usize) -> bool {
    match mt {
        MirrorType::Full => true,
        MirrorType::Partial { n } => counter == 0 ==> n >= 1,
    }
}

/// The directory that a mirror stores the backup `backup_id` in.
pub open spec fn destination_of(backend: StorageBackend, backup_id: Seq<char>) -> Seq<char> {
    match backend {
        StorageBackend::Local { path } => joined(path@, backup_id),
    }
}

/// Returns true if the next backup should be stored in this mirror.
pub fn should_keep_backup(mirror: &Mirror) -> (r: bool)
    ensures
        r == keeps_next(mirror.spec_mirror_type(), mirror.spec_backups_until_next_keep()),
{
    match mirror.mirror_type() {
        MirrorType::Full => true,
        MirrorType::Partial { .. } => mirror.backups_until_next_keep() == 0,
    }
}

/// Advances the partial-mirror counter after a keep/skip decision.
/// For `Full` mirrors this is a no-op.
pub fn advance_counter(mirror: &mut Mirror)
    requires
        can_advance(old(mirror).spec_mirror_type(), old(mirror).spec_backups_until_next_keep()),
    ensures
        final(mirror).spec_backups_until_next_keep() == next_counter(
            old(mirror).spec_mirror_type(),
            old(mirror).spec_backups_until_next_keep(),
        ),
        final(mirror).spec_backups() == old(mirror).spec_backups(),
        final(mirror).same_identity(*old(mirror)),
{
    match *mirror.mirror_type() {
        MirrorType::Full => {},
        MirrorType::Partial { n } => {
            if mirror.backups_until_next_keep() == 0 {
                mirror.set_backups_until_next_keep(n - 1);
            } else {
                let c = mirror.backups_until_next_keep();
                mirror.set_backups_until_next_keep(c - 1);
            }
        },
    }
}

/// Resolves the destination directory path for a given backup within a mirror.
/// Only `StorageBackend::Local` is implemented.
pub fn resolve_destination(config: &MirrorConfig, backup_id: &str) -> (r: Result<String, String>)
    ensures
        r matches Ok(d) && d@ == destination_of(config.spec_backend(), backup_id@),
{
    match config.backend() {
        StorageBackend::Local { path } => Ok(join_path(path.as_str(), backup_id)),
    }
}

/// Decides what becomes of a completed backup in a mirror: checks the
/// keep/skip policy, advances the counter and, when the backup is kept,
/// gives the directory to copy its files to. Copying the files and then
/// recording the copy with `record_mirrored_backup` is the caller's part.
pub fn distribute_backup(backup: &Backup, mirror: &mut Mirror, config: &MirrorConfig) -> (r: Result<Option<String>, String>)
    requires
        can_advance(old(mirror).spec_mirror_type(), old(mirror).spec_backups_until_next_keep()),
    ensures
        r matches Ok(dest) && (dest is Some <==> keeps_next(
            old(mirror).spec_mirror_type(),
            old(mirror).spec_backups_until_next_keep(),
        )) && (dest matches Some(d) ==> d@ == destination_of(
            config.spec_backend(),
            backup.spec_id(),
        )),
        final(mirror).spec_backups_until_next_keep() == next_counter(
            old(mirror).spec_mirror_type(),
            old(mirror).spec_backups_until_next_keep(),
        ),
        final(mirror).spec_backups() == old(mirror).spec_backups(),
        final(mirror).same_identity(*old(mirror)),
{
    let keep = should_keep_backup(mirror);
    advance_counter(mirror);
    if keep {
        let dest = resolve_destination(config, backup.id().as_str())?;
        Ok(Some(dest))
    } else {
        Ok(None)
    }
}

/// Records in the mirror's metadata the copy of `backup` stored under `dest`.
pub fn record_mirrored_backup(mirror: &mut Mirror, backup: &Backup, dest: String)
    ensures
        final(mirror).spec_backups().len() == old(mirror).spec_backups().len() + 1,
        final(mirror).spec_backups().drop_last() == old(mirror).spec_backups(),
        final(mirror).spec_backups().last().spec_id() == backup.spec_id(),
        final(mirror).spec_backups().last().spec_created_at() == backup.spec_created_at(),
        final(mirror).spec_backups().last().spec_contents() == backup.spec_contents(),
        final(mirror).spec_backups().last().spec_size() == backup.spec_size(),
        final(mirror).spec_backups().last().spec_root() == dest@,
        final(mirror).spec_backups_until_next_keep() == old(mirror).spec_backups_until_next_keep(),
        final(mirror).same_identity(*old(mirror)),
{
    let mirrored = backup.mirror_to(dest);
    mirror.add_backup(mirrored);
    assert(mirror.spec_backups().drop_last() =~= old(mirror).spec_backups());
}

/// How many of `k` consecutive backups a mirror of type `mt` keeps when its
/// counter starts at `counter`.
pub open spec fn kept_count(mt: MirrorType, counter: usize, k: nat) -> nat
    decreases k,
{
    if k == 0 {
        0
    } else {
        (if keeps_next(mt, counter) { 1nat } else { 0nat }) + kept_count(
            mt,
            next_counter(mt, counter),
            (k - 1) as nat,
        )
    }
}

/// A `Partial { n }` mirror's counter stays below `n`.
pub proof fn lemma_partial_counter_stays_below(n: usize, counter: usize)
    requires
        n >= 1,
        counter < n,
    ensures
        can_advance(MirrorType::Partial { n }, counter),
        next_counter(MirrorType::Partial { n }, counter) < n,
{
}

proof fn lemma_partial_skips_while_counting_down(n: usize, counter: usize, k: nat)
    requires
        counter < n,
        k <= counter,
    ensures
        kept_count(MirrorType::Partial { n }, counter, k) == 0,
    decreases k,
{
    if k > 0 {
        lemma_partial_skips_while_counting_down(n, (counter - 1) as usize, (k - 1) as nat);
    }
}

proof fn lemma_partial_keeps_one_in_window(n: usize, counter: usize, k: nat)
    requires
        counter < n,
        counter < k <= counter + n,
    ensures
        kept_count(MirrorType::Partial { n }, counter, k) == 1,
    decreases counter,
{
    if counter == 0 {
        lemma_partial_skips_while_counting_down(n, (n - 1) as usize, (k - 1) as nat);
    } else {
        lemma_partial_keeps_one_in_window(n, (counter - 1) as usize, (k - 1) as nat);
    }
}

/// Out of any `n` consecutive backups handed to a `Partial { n }` mirror
/// whose counter is below `n`, exactly one is kept.
pub proof fn lemma_partial_keeps_one_in_n(n: usize, counter: usize)
    requires
        n >= 1,
        counter < n,
    ensures
        kept_count(MirrorType::Partial { n }, counter, n as nat) == 1,
{
    lemma_partial_keeps_one_in_window(n, counter, n as nat);
}

/// A `Full` mirror keeps every backup.
pub proof fn lemma_full_keeps_all(counter: usize, k: nat)
    ensures
        kept_count(MirrorType::Full, counter, k) == k,
    decreases k,
{
    if k > 0 {
        lemma_full_keeps_all(counter, (k - 1) as nat);
    }
}


/// The counter after `k` consecutive keep-or-skip decisions, starting at `counter`.
pub open spec fn counter_after(mt: MirrorType, counter: usize, k: nat) -> usize
    decreases k,
{
    if k == 0 {
        counter
    } else {
        counter_after(mt, next_counter(mt, counter), (k - 1) as nat)
    }
}

/// Whether the backup handed over after `i` earlier ones is kept (the first
/// backup has `i == 0`), for a mirror whose counter starts at `counter`.
pub open spec fn keeps_backup_number(mt: MirrorType, counter: usize, i: nat) -> bool {
    keeps_next(mt, counter_after(mt, counter, i))
}

/// Running `a` decisions and then `b` more is running `a + b`.
pub proof fn lemma_counter_after_compose(mt: MirrorType, counter: usize, a: nat, b: nat)
    ensures
        counter_after(mt, counter, a + b) == counter_after(mt, counter_after(mt, counter, a), b),
    decreases a,
{
    if a > 0 {
        lemma_counter_after_compose(mt, next_counter(mt, counter), (a - 1) as nat, b);
        assert((a + b - 1) as nat == (a - 1) as nat + b);
    }
}

/// One more decision advances the counter once more: the counter of a mirror
/// after `k` calls of `distribute_backup` (or `advance_counter`) is
/// `counter_after(mt, counter, k)`.
pub proof fn lemma_counter_after_step(mt: MirrorType, counter: usize, k: nat)
    ensures
        counter_after(mt, counter, k + 1) == next_counter(mt, counter_after(mt, counter, k)),
{
    lemma_counter_after_compose(mt, counter, k, 1);
    let c = counter_after(mt, counter, k);
    assert(counter_after(mt, next_counter(mt, c), 0) == next_counter(mt, c));
    assert(counter_after(mt, c, 1) == counter_after(mt, next_counter(mt, c), 0));
}

proof fn lemma_partial_counts_down_from_reset(n: usize, j: nat)
    requires
        n >= 1,
        1 <= j <= n,
    ensures
        counter_after(MirrorType::Partial { n }, 0, j) == n - j,
    decreases j,
{
    let mt = MirrorType::Partial { n };
    if j > 1 {
        lemma_partial_counts_down_from_reset(n, (j - 1) as nat);
        lemma_counter_after_step(mt, 0, (j - 1) as nat);
        assert(j == (j - 1) as nat + 1);
    } else {
        assert(counter_after(mt, next_counter(mt, 0), 0) == next_counter(mt, 0));
    }
}

/// Starting from a counter of `0`, a `Partial { n }` mirror's counter after
/// `j` decisions is `0` when `j` is a multiple of `n`, else `n - j % n`.
pub proof fn lemma_partial_counter_after(n: usize, j: nat)
    requires
        n >= 1,
    ensures
        counter_after(MirrorType::Partial { n }, 0, j) == (if j % (n as nat) == 0 {
            0
        } else {
            n - j % (n as nat)
        }),
    decreases j,
{
    let mt = MirrorType::Partial { n };
    if j < n {
        vstd::arithmetic::div_mod::lemma_small_mod(j, n as nat);
        if j >= 1 {
            lemma_partial_counts_down_from_reset(n, j);
        }
    } else {
        let rest = (j - n) as nat;
        lemma_partial_counter_after(n, rest);
        lemma_partial_counts_down_from_reset(n, n as nat);
        lemma_counter_after_compose(mt, 0, n as nat, rest);
        assert(j == n as nat + rest);
        vstd::arithmetic::div_mod::lemma_mod_add_multiples_vanish(rest as int, n as int);
    }
}

/// The schedule of a `Partial { n }` mirror whose counter starts at `0`: the
/// first backup is kept, then every `n`-th one; the other `n - 1` of each `n`
/// are skipped. Backup number `i` (counting from `0`) is kept exactly when
/// `i % n == 0`.
pub proof fn lemma_partial_schedule(n: usize, i: nat)
    requires
        n >= 1,
    ensures
        keeps_backup_number(MirrorType::Partial { n }, 0, i) <==> i % (n as nat) == 0,
{
    lemma_partial_counter_after(n, i);
    vstd::arithmetic::div_mod::lemma_mod_bound(i as int, n as int);
}

/// The backups kept out of `bs` when they are handed, in order, to
/// successive `distribute_backup` calls on a mirror of type `mt` whose
/// counter starts at `counter`: each call keeps its backup when
/// `keeps_next` holds of the counter, and moves the counter on with
/// `next_counter` (its contract). The kept ones are those that
/// `record_mirrored_backup` then appends to the mirror, in this order.
pub open spec fn kept_in_run<T>(mt: MirrorType, counter: usize, bs: Seq<T>) -> Seq<T>
    decreases bs.len(),
{
    if bs.len() == 0 {
        bs
    } else {
        let rest = kept_in_run(mt, next_counter(mt, counter), bs.drop_first());
        if keeps_next(mt, counter) {
            seq![bs[0]] + rest
        } else {
            rest
        }
    }
}

/// The items of `bs` whose position, counted from `start`, is a multiple of
/// `n`, in order.
pub open spec fn every_nth_from<T>(bs: Seq<T>, n: nat, start: nat) -> Seq<T>
    decreases bs.len(),
{
    if bs.len() == 0 {
        bs
    } else {
        let rest = every_nth_from(bs.drop_first(), n, start + 1);
        if start % n == 0 {
            seq![bs[0]] + rest
        } else {
            rest
        }
    }
}

proof fn lemma_partial_run_from<T>(n: usize, start: nat, bs: Seq<T>)
    requires
        n >= 1,
    ensures
        kept_in_run(MirrorType::Partial { n }, counter_after(MirrorType::Partial { n }, 0, start), bs)
            == every_nth_from(bs, n as nat, start),
    decreases bs.len(),
{
    let mt = MirrorType::Partial { n };
    if bs.len() > 0 {
        lemma_partial_run_from(n, start + 1, bs.drop_first());
        lemma_counter_after_step(mt, 0, start);
        lemma_partial_schedule(n, start);
    }
}

/// A series of `distribute_backup` calls on a `Partial { n }` mirror whose
/// counter starts at `0` keeps the first backup and then every `n`-th one,
/// in order: exactly the backups at positions `0`, `n`, `2n`, ...
pub proof fn lemma_partial_mirror_run<T>(n: usize, bs: Seq<T>)
    requires
        n >= 1,
    ensures
        kept_in_run(MirrorType::Partial { n }, 0, bs) == every_nth_from(bs, n as nat, 0),
{
    lemma_partial_run_from(n, 0, bs);
}

/// A series of `distribute_backup` calls on a `Full` mirror keeps every
/// backup, in order.
pub proof fn lemma_full_mirror_run<T>(counter: usize, bs: Seq<T>)
    ensures
        kept_in_run(MirrorType::Full, counter, bs) == bs,
    decreases bs.len(),
{
    if bs.len() > 0 {
        lemma_full_mirror_run(counter, bs.drop_first());
        assert(seq![bs[0]] + bs.drop_first() =~= bs);
    }
}

/// A `Full` mirror keeps every backup, whatever its counter.
pub proof fn lemma_full_schedule(counter: usize, i: nat)
    ensures
        keeps_backup_number(MirrorType::Full, counter, i),
{
    lemma_full_counter_unchanged(counter, i);
}

proof fn lemma_full_counter_unchanged(counter: usize, k: nat)
    ensures
        counter_after(MirrorType::Full, counter, k) == counter,
    decreases k,
{
    if k > 0 {
        lemma_full_counter_unchanged(counter, (k - 1) as nat);
    }
}

} // verus!
