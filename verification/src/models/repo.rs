//! Repositories: a directory that holds a rotating set of backups.
use vstd::prelude::*;

use crate::models::backup::Backup;
use crate::models::identity::{fresh_identity, is_hyphenated_uuid, made_in_second};

verus! {

/// A backup repository: its identity, where it lives, how many backups it
/// keeps at most, and the backups it holds.
#[derive(Debug)]
pub struct Repository {
    id: String,
    name: String,
    created_at: u64,
    location: String,
    rotation_limit: usize,
    backups: Vec<Backup>,
}

impl Repository {
    pub closed spec fn spec_id(&self) -> Seq<char> {
        self.id@
    }

    pub closed spec fn spec_name(&self) -> Seq<char> {
        self.name@
    }

    pub closed spec fn spec_created_at(&self) -> u64 {
        self.created_at
    }

    pub closed spec fn spec_location(&self) -> Seq<char> {
        self.location@
    }

    pub closed spec fn spec_rotation_limit(&self) -> usize {
        self.rotation_limit
    }

    pub closed spec fn spec_backups(&self) -> Seq<Backup> {
        self.backups@
    }

    /// Everything but the backups is unchanged.
    pub open spec fn same_settings(&self, other: Repository) -> bool {
        &&& self.spec_id() == other.spec_id()
        &&& self.spec_name() == other.spec_name()
        &&& self.spec_created_at() == other.spec_created_at()
        &&& self.spec_location() == other.spec_location()
        &&& self.spec_rotation_limit() == other.spec_rotation_limit()
    }

    /// A new, empty repository with a fresh version 7 identifier and the
    /// current time. Fails with `Time went backwards` when the clock stands
    /// before the Unix epoch.
    pub fn new(name: String, location: String, rotation_limit: usize) -> (res: Result<Repository, String>)
        ensures
            res matches Ok(r) ==> {
                &&& r.spec_name() == name@
                &&& r.spec_location() == location@
                &&& r.spec_rotation_limit() == rotation_limit
                &&& r.spec_backups() == Seq::<Backup>::empty()
                &&& is_hyphenated_uuid(r.spec_id(), '7')
                &&& made_in_second(r.spec_id(), r.spec_created_at())
            },
            res matches Err(e) ==> e@ == "Time went backwards"@,
    {
        let (id, created_at) = fresh_identity()?;
        Ok(Repository { id, name, created_at, location, rotation_limit, backups: Vec::new() })
    }

    /// A repository with every field given, as stored metadata describes it.
    pub fn from_parts(
        id: String,
        name: String,
        created_at: u64,
        location: String,
        rotation_limit: usize,
        backups: Vec<Backup>,
    ) -> (r: Repository)
        ensures
            r.spec_id() == id@,
            r.spec_name() == name@,
            r.spec_created_at() == created_at,
            r.spec_location() == location@,
            r.spec_rotation_limit() == rotation_limit,
            r.spec_backups() == backups@,
    {
        Repository { id, name, created_at, location, rotation_limit, backups }
    }

    pub fn id(&self) -> (r: &String)
        ensures
            r@ == self.spec_id(),
    {
        &self.id
    }

    pub fn name(&self) -> (r: &String)
        ensures
            r@ == self.spec_name(),
    {
        &self.name
    }

    pub fn created_at(&self) -> (r: u64)
        ensures
            r == self.spec_created_at(),
    {
        self.created_at
    }

    pub fn location(&self) -> (r: &String)
        ensures
            r@ == self.spec_location(),
    {
        &self.location
    }

    pub fn rotation_limit(&self) -> (r: usize)
        ensures
            r == self.spec_rotation_limit(),
    {
        self.rotation_limit
    }

    pub fn backups(&self) -> (r: &Vec<Backup>)
        ensures
            r@ == self.spec_backups(),
    {
        &self.backups
    }

    /// The list of backups, to change in place.
    pub fn backups_mut(&mut self) -> (r: &mut Vec<Backup>)
        ensures
            r@ == old(self).spec_backups(),
            final(self).spec_backups() == final(r)@,
            final(self).same_settings(*old(self)),
    {
        &mut self.backups
    }

    /// Records one more backup, after the others.
    pub fn add_backup(&mut self, backup: Backup)
        ensures
            final(self).spec_backups() == old(self).spec_backups().push(backup),
            final(self).same_settings(*old(self)),
    {
        self.backups.push(backup);
    }
}

} // verus!
