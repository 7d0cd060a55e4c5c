//! The storage model: the directory of stored files as a sequence of
//! name/content pairs, where a later write of a name shadows an earlier
//! one, exactly as creating a file anew replaces its contents.

use vstd::prelude::*;

verus! {

/// One stored file: its generated name and its bytes.
pub struct StoredFile {
    /// The stored name, the single URL path segment it is served under.
    pub name: String,
    /// The file's bytes.
    pub content: Vec<u8>,
}

/// The content served for a name: that of the latest stored file so
/// named, or nothing when no stored file carries the name.
pub open spec fn lookup(files: Seq<StoredFile>, name: Seq<char>) -> Option<Seq<u8>>
    decreases files.len(),
{
    if files.len() == 0 {
        None
    } else if files.last().name@ == name {
        Some(files.last().content@)
    } else {
        lookup(files.drop_last(), name)
    }
}

/// The storage root as a value: every stored file, in write order.
pub struct MemStore {
    /// The stored files, oldest first.
    pub files: Vec<StoredFile>,
}

impl MemStore {
    /// An empty storage root.
    pub fn new() -> (r: MemStore)
        ensures
            r.files@.len() == 0,
    {
        MemStore { files: Vec::new() }
    }

    /// Write a file: later lookups of this name see these bytes.
    pub fn put(&mut self, name: String, content: Vec<u8>)
        ensures
            final(self).files@ == old(self).files@.push(StoredFile { name, content }),
    {
        self.files.push(StoredFile { name, content });
    }

    /// Read the bytes served for a name, exactly as `lookup` says.
    pub fn get(&self, name: &String) -> (r: Option<Vec<u8>>)
        ensures
            match lookup(self.files@, name@) {
                None => r is None,
                Some(c) => r is Some && r->0@ == c,
            },
    {
        let mut i: usize = self.files.len();
        proof {
            assert(self.files@.take(i as int) =~= self.files@);
        }
        while i > 0
            invariant
                i <= self.files@.len(),
                lookup(self.files@, name@) == lookup(self.files@.take(i as int), name@),
            decreases i,
        {
            proof {
                assert(self.files@.take(i as int).drop_last() =~= self.files@.take(i - 1));
                assert(self.files@.take(i as int).last() == self.files@[i - 1]);
            }
            if self.files[i - 1].name == *name {
                return Some(self.files[i - 1].content.clone());
            }
            i -= 1;
        }
        None
    }
}

/// A stored file is served back byte-identical: wherever a file stands in
/// the store with no later write of the same name, looking its name up
/// yields exactly the bytes it was written with.
pub proof fn lemma_round_trip(files: Seq<StoredFile>, j: int)
    requires
        0 <= j < files.len(),
        forall|m: int| j < m < files.len() ==> files[m].name@ != files[j].name@,
    ensures
        lookup(files, files[j].name@) == Some(files[j].content@),
    decreases files.len(),
{
    if j == files.len() - 1 {
        assert(files.last() == files[j]);
    } else {
        assert(files.last().name@ != files[j].name@);
        assert(files.drop_last()[j] == files[j]);
        lemma_round_trip(files.drop_last(), j);
    }
}

} // verus!
