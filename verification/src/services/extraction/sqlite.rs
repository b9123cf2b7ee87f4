//! SQLite databases come with `-wal` and `-shm` companion files.
use vstd::prelude::*;

use crate::text::views;

verus! {

/// The paths to fetch for an SQLite container: the first path widened with
/// a trailing `*`, so that the database's `-wal` and `-shm` companions come
/// along; the other paths as they are.
pub fn sqlite_file_paths(paths: &Vec<String>) -> (r: Vec<String>)
    requires
        paths@.len() >= 1,
    ensures
        views(r@) == views(paths@).update(0, paths@[0]@ + seq!['*']),
{
    let mut r: Vec<String> = Vec::new();
    let mut first = paths[0].clone();
    first.append("*");
    proof {
        reveal_strlit("*");
        assert("*"@ =~= seq!['*']);
    }
    r.push(first);
    assert(views(r@) =~= views(paths@).subrange(0, 1).update(0, paths@[0]@ + seq!['*']));
    let mut i: usize = 1;
    while i < paths.len()
        invariant
            1 <= i <= paths@.len(),
            views(r@) == views(paths@).subrange(0, i as int).update(0, paths@[0]@ + seq!['*']),
        decreases paths@.len() - i,
    {
        let ghost old_r = r@;
        r.push(paths[i].clone());
        assert(views(r@) =~= views(old_r).push(paths@[i as int]@));
        assert(views(r@) =~= views(paths@).subrange(0, i + 1).update(0, paths@[0]@ + seq!['*']));
        i = i + 1;
    }
    assert(views(paths@).subrange(0, paths@.len() as int) =~= views(paths@));
    r
}

} // verus!
