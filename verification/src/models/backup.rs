//! One backup: an identified, timestamped set of files under a root directory.
use vstd::prelude::*;

use crate::models::identity::{fresh_identity, is_hyphenated_uuid, made_in_second};
use crate::text::views;

verus! {

/// A backup of container files stored under `root`.
#[derive(Debug)]
pub struct Backup {
    id: String,
    created_at: u64,
    contents: Vec<String>,
    size: u64,
    root: String,
}

impl Backup {
    /// Identifier of the backup.
    pub closed spec fn spec_id(&self) -> Seq<char> {
        self.id@
    }

    /// Creation time, in seconds since the Unix epoch.
    pub closed spec fn spec_created_at(&self) -> u64 {
        self.created_at
    }

    /// Paths of the files the backup holds.
    pub closed spec fn spec_contents(&self) -> Seq<Seq<char>> {
        views(self.contents@)
    }

    /// Total size of the files, in bytes.
    pub closed spec fn spec_size(&self) -> u64 {
        self.size
    }

    /// Directory that holds the backup's files.
    pub closed spec fn spec_root(&self) -> Seq<char> {
        self.root@
    }

    /// A new, empty backup under `root`, with a fresh version 7 identifier
    /// and the current time. Fails with `Time went backwards` when the clock
    /// stands before the Unix epoch.
    pub fn new(root: String) -> (r: Result<Backup, String>)
        ensures
            r matches Ok(b) ==> {
                &&& b.spec_root() == root@
                &&& b.spec_contents() == Seq::<Seq<char>>::empty()
                &&& b.spec_size() == 0
                &&& is_hyphenated_uuid(b.spec_id(), '7')
                &&& made_in_second(b.spec_id(), b.spec_created_at())
            },
            r matches Err(e) ==> e@ == "Time went backwards"@,
    {
        let (id, created_at) = fresh_identity()?;
        let b = Backup { id, created_at, contents: Vec::new(), size: 0, root };
        assert(b.spec_contents() =~= Seq::<Seq<char>>::empty());
        Ok(b)
    }

    /// A backup with every field given, as stored metadata describes it.
    pub fn from_parts(id: String, created_at: u64, contents: Vec<String>, size: u64, root: String) -> (b: Backup)
        ensures
            b.spec_id() == id@,
            b.spec_created_at() == created_at,
            b.spec_contents() == views(contents@),
            b.spec_size() == size,
            b.spec_root() == root@,
    {
        Backup { id, created_at, contents, size, root }
    }

    pub fn id(&self) -> (r: &String)
        ensures
            r@ == self.spec_id(),
    {
        &self.id
    }

    pub fn created_at(&self) -> (r: u64)
        ensures
            r == self.spec_created_at(),
    {
        self.created_at
    }

    pub fn contents(&self) -> (r: &Vec<String>)
        ensures
            views(r@) == self.spec_contents(),
    {
        &self.contents
    }

    pub fn size(&self) -> (r: u64)
        ensures
            r == self.spec_size(),
    {
        self.size
    }

    pub fn root(&self) -> (r: &String)
        ensures
            r@ == self.spec_root(),
    {
        &self.root
    }

    /// Records what a finished backup holds and how large it is.
    pub fn complete(&mut self, contents: Vec<String>, size: u64)
        ensures
            final(self).spec_contents() == views(contents@),
            final(self).spec_size() == size,
            final(self).spec_id() == old(self).spec_id(),
            final(self).spec_created_at() == old(self).spec_created_at(),
            final(self).spec_root() == old(self).spec_root(),
    {
        self.contents = contents;
        self.size = size;
    }

    /// The same backup as copied to another root directory: identifier,
    /// time, contents and size are kept, the root is `root`.
    pub fn mirror_to(&self, root: String) -> (b: Backup)
        ensures
            b.spec_id() == self.spec_id(),
            b.spec_created_at() == self.spec_created_at(),
            b.spec_contents() == self.spec_contents(),
            b.spec_size() == self.spec_size(),
            b.spec_root() == root@,
    {
        let contents = self.contents.clone();
        assert(views(contents@) =~= views(self.contents@));
        Backup { id: self.id.clone(), created_at: self.created_at, contents, size: self.size, root }
    }
}

} // verus!
