//! Mirrors: second copies of a repository's backups, full or thinned out.
use vstd::prelude::*;

use crate::models::backup::Backup;
use crate::models::identity::{fresh_identity, is_hyphenated_uuid, made_in_second};

verus! {

/// How many of the repository's backups a mirror keeps.
#[derive(Debug, Clone, Copy, PartialEq, Eq, Structural)]
pub enum MirrorType {
    /// Every backup.
    Full,
    /// One backup out of every `n`.
    Partial { n: usize },
}

/// Where the mirror's backup files are physically stored.
/// Only `Local` is implemented; other variants are reserved for future remote backends.
#[derive(Debug, Clone)]
pub enum StorageBackend {
    Local { path: String },
}

impl StorageBackend {
    /// The local directory of a `Local` backend.
    pub fn local_path(&self) -> (r: Result<&str, String>)
        ensures
            match self {
                StorageBackend::Local { path } => r matches Ok(p) && p@ == path@,
            },
    {
        match self {
            StorageBackend::Local { path } => Ok(path.as_str()),
        }
    }
}

/// Lightweight descriptor stored inside a repository's metadata.
/// One entry per registered mirror.
#[derive(Debug, Clone)]
pub struct MirrorConfig {
    backend: StorageBackend,
    mirror_type: MirrorType,
}

impl MirrorConfig {
    pub closed spec fn spec_backend(&self) -> StorageBackend {
        self.backend
    }

    pub closed spec fn spec_mirror_type(&self) -> MirrorType {
        self.mirror_type
    }

    pub fn new(backend: StorageBackend, mirror_type: MirrorType) -> (c: MirrorConfig)
        ensures
            c.spec_backend() == backend,
            c.spec_mirror_type() == mirror_type,
    {
        MirrorConfig { backend, mirror_type }
    }

    pub fn backend(&self) -> (r: &StorageBackend)
        ensures
            *r == self.spec_backend(),
    {
        &self.backend
    }

    pub fn mirror_type(&self) -> (r: &MirrorType)
        ensures
            *r == self.spec_mirror_type(),
    {
        &self.mirror_type
    }
}

/// The backups of `s` whose identifier is not `id`, in their order.
pub open spec fn without_id(s: Seq<Backup>, id: Seq<char>) -> Seq<Backup>
    decreases s.len(),
{
    if s.len() == 0 {
        s
    } else if s[0].spec_id() == id {
        without_id(s.drop_first(), id)
    } else {
        seq![s[0]] + without_id(s.drop_first(), id)
    }
}

/// Removing by identifier leaves no backup with that identifier, keeps
/// every other backup in its order, and changes nothing when no backup has
/// the identifier.
pub proof fn lemma_without_id(s: Seq<Backup>, id: Seq<char>)
    ensures
        forall|i: int| 0 <= i < without_id(s, id).len() ==> #[trigger] without_id(s, id)[i].spec_id() != id,
        without_id(s, id).len() <= s.len(),
        (forall|i: int| 0 <= i < s.len() ==> #[trigger] s[i].spec_id() != id) ==> without_id(s, id) == s,
    decreases s.len(),
{
    if s.len() > 0 {
        let rest = s.drop_first();
        lemma_without_id(rest, id);
        if s[0].spec_id() != id {
            let r = seq![s[0]] + without_id(rest, id);
            assert forall|i: int| 0 <= i < r.len() implies #[trigger] r[i].spec_id() != id by {
                if i > 0 {
                    assert(r[i] == without_id(rest, id)[i - 1]);
                }
            }
            if forall|i: int| 0 <= i < s.len() ==> #[trigger] s[i].spec_id() != id {
                assert forall|i: int| 0 <= i < rest.len() implies #[trigger] rest[i].spec_id() != id by {
                    assert(rest[i] == s[i + 1]);
                }
                assert(r =~= s);
            }
        }
    }
}

/// Full mirror state, persisted in `{location}/mirror_metadata.toml`.
#[derive(Debug)]
pub struct Mirror {
    id: String,
    name: String,
    created_at: u64,
    location: String,
    source_repository: String,
    mirror_type: MirrorType,
    backups: Vec<Backup>,
    /// For `Partial { n }` mirrors: counts down from `n-1` to `0`.
    /// When `0`, the next backup is kept and the counter resets to `n-1`.
    /// Always `0` for `Full` mirrors (unused).
    backups_until_next_keep: usize,
}

impl Mirror {
    pub closed spec fn spec_id(&self) -> Seq<char> {
        self.id@
    }

    pub closed spec fn spec_name(&self) -> Seq<char> {
        self.name@
    }

    pub closed spec fn spec_created_at(&self) -> u64 {
        self.created_at
    }

    pub closed spec fn spec_location(&self) -> Seq<char> {
        self.location@
    }

    pub closed spec fn spec_source_repository(&self) -> Seq<char> {
        self.source_repository@
    }

    pub closed spec fn spec_mirror_type(&self) -> MirrorType {
        self.mirror_type
    }

    pub closed spec fn spec_backups(&self) -> Seq<Backup> {
        self.backups@
    }

    pub closed spec fn spec_backups_until_next_keep(&self) -> usize {
        self.backups_until_next_keep
    }

    /// Everything but the kept backups and the counter is unchanged.
    pub open spec fn same_identity(&self, other: Mirror) -> bool {
        &&& self.spec_id() == other.spec_id()
        &&& self.spec_name() == other.spec_name()
        &&& self.spec_created_at() == other.spec_created_at()
        &&& self.spec_location() == other.spec_location()
        &&& self.spec_source_repository() == other.spec_source_repository()
        &&& self.spec_mirror_type() == other.spec_mirror_type()
    }

    /// A new mirror with no backups, a fresh version 7 identifier and the
    /// current time. Fails with `Time went backwards` when the clock stands
    /// before the Unix epoch.
    pub fn new(name: String, location: String, source_repository: String, mirror_type: MirrorType) -> (r:
        Result<Mirror, String>)
        ensures
            r matches Ok(m) ==> {
                &&& m.spec_name() == name@
                &&& m.spec_location() == location@
                &&& m.spec_source_repository() == source_repository@
                &&& m.spec_mirror_type() == mirror_type
                &&& m.spec_backups() == Seq::<Backup>::empty()
                &&& m.spec_backups_until_next_keep() == 0
                &&& is_hyphenated_uuid(m.spec_id(), '7')
                &&& made_in_second(m.spec_id(), m.spec_created_at())
            },
            r matches Err(e) ==> e@ == "Time went backwards"@,
    {
        let (id, created_at) = fresh_identity()?;
        let m = Mirror {
            id,
            name,
            created_at,
            location,
            source_repository,
            mirror_type,
            backups: Vec::new(),
            backups_until_next_keep: 0,
        };
        assert(m.spec_backups() =~= Seq::<Backup>::empty());
        Ok(m)
    }

    /// A mirror with every field given, as stored metadata describes it.
    pub fn from_parts(
        id: String,
        name: String,
        created_at: u64,
        location: String,
        source_repository: String,
        mirror_type: MirrorType,
        backups: Vec<Backup>,
        backups_until_next_keep: usize,
    ) -> (m: Mirror)
        ensures
            m.spec_id() == id@,
            m.spec_name() == name@,
            m.spec_created_at() == created_at,
            m.spec_location() == location@,
            m.spec_source_repository() == source_repository@,
            m.spec_mirror_type() == mirror_type,
            m.spec_backups() == backups@,
            m.spec_backups_until_next_keep() == backups_until_next_keep,
    {
        Mirror {
            id,
            name,
            created_at,
            location,
            source_repository,
            mirror_type,
            backups,
            backups_until_next_keep,
        }
    }

    pub fn id(&self) -> (r: &String)
        ensures
            r@ == self.spec_id(),
    {
        &self.id
    }

    pub fn name(&self) -> (r: &String)
        ensures
            r@ == self.spec_name(),
    {
        &self.name
    }

    pub fn created_at(&self) -> (r: u64)
        ensures
            r == self.spec_created_at(),
    {
        self.created_at
    }

    pub fn location(&self) -> (r: &String)
        ensures
            r@ == self.spec_location(),
    {
        &self.location
    }

    pub fn source_repository(&self) -> (r: &String)
        ensures
            r@ == self.spec_source_repository(),
    {
        &self.source_repository
    }

    pub fn mirror_type(&self) -> (r: &MirrorType)
        ensures
            *r == self.spec_mirror_type(),
    {
        &self.mirror_type
    }

    pub fn backups(&self) -> (r: &Vec<Backup>)
        ensures
            r@ == self.spec_backups(),
    {
        &self.backups
    }

    /// The list of backups, to change in place.
    pub fn backups_mut(&mut self) -> (r: &mut Vec<Backup>)
        ensures
            r@ == old(self).spec_backups(),
            final(self).spec_backups() == final(r)@,
            final(self).same_identity(*old(self)),
            final(self).spec_backups_until_next_keep() == old(self).spec_backups_until_next_keep(),
    {
        &mut self.backups
    }

    pub fn backups_until_next_keep(&self) -> (r: usize)
        ensures
            r == self.spec_backups_until_next_keep(),
    {
        self.backups_until_next_keep
    }

    pub fn set_backups_until_next_keep(&mut self, value: usize)
        ensures
            final(self).spec_backups_until_next_keep() == value,
            final(self).spec_backups() == old(self).spec_backups(),
            final(self).same_identity(*old(self)),
    {
        self.backups_until_next_keep = value;
    }

    /// Records one more backup, after the others.
    pub fn add_backup(&mut self, backup: Backup)
        ensures
            final(self).spec_backups() == old(self).spec_backups().push(backup),
            final(self).spec_backups_until_next_keep() == old(self).spec_backups_until_next_keep(),
            final(self).same_identity(*old(self)),
    {
        self.backups.push(backup);
    }

    /// Removes the backup with the given id from the in-memory list.
    /// Does NOT delete files — file deletion is handled by the service layer.
    pub fn remove_backup_by_id(&mut self, backup_id: &str)
        ensures
            final(self).spec_backups() == without_id(old(self).spec_backups(), backup_id@),
            final(self).spec_backups_until_next_keep() == old(self).spec_backups_until_next_keep(),
            final(self).same_identity(*old(self)),
    {
        let ghost initial = self.backups@;
        let mut kept: Vec<Backup> = Vec::new();
        let mut rest: Vec<Backup> = Vec::new();
        std::mem::swap(&mut rest, &mut self.backups);
        assert(kept@ + without_id(rest@, backup_id@) =~= without_id(initial, backup_id@));
        while rest.len() > 0
            invariant
                kept@ + without_id(rest@, backup_id@) == without_id(initial, backup_id@),
            decreases rest@.len(),
        {
            let ghost before = rest@;
            let b = rest.remove(0);
            assert(rest@ =~= before.drop_first());
            if !crate::text::str_equals(b.id().as_str(), backup_id) {
                kept.push(b);
                assert(kept@ + without_id(rest@, backup_id@) =~= without_id(initial, backup_id@));
            }
        }
        assert(kept@ =~= without_id(initial, backup_id@));
        self.backups = kept;
    }
}

} // verus!
