//! Persistence of raw log bytes: files named by the hex identifier, with
//! existence-by-filename as the only metadata, written first-writer-wins.
//! The store models the flat persistence directory; the filesystem mirror
//! of each decision lives outside the library.

use vstd::prelude::*;

use crate::bytes::bytes_eq;
use crate::hexenc::{hex_encode_bytes, lemma_hex_injective, lemma_hex_len, spec_hex_of};

verus! {

/// The suffix `".log"` appended to the hex identifier.
pub open spec fn spec_log_suffix() -> Seq<u8> {
    seq![46u8, 108u8, 111u8, 103u8]
}

/// The persistence file name for an identifier: its lowercase hex
/// encoding followed by `".log"`.
pub open spec fn spec_persist_name(id: Seq<u8>) -> Seq<u8> {
    spec_hex_of(id) + spec_log_suffix()
}

/// The file name an identifier persists under.
pub fn persist_filename(id: &Vec<u8>) -> (name: Vec<u8>)
    ensures
        name@ == spec_persist_name(id@),
{
    let mut name = hex_encode_bytes(id);
    name.push(46);
    name.push(108);
    name.push(111);
    name.push(103);
    proof {
        assert(name@ =~= spec_persist_name(id@));
    }
    name
}

/// A flat directory of persisted logs: file names paired with their
/// bytes, one file per name.
pub struct LogStore {
    pub files: Vec<(Vec<u8>, Vec<u8>)>,
}

/// The directory a file list denotes: each name maps to its bytes. When a
/// name repeats, the later pair wins; a well-formed store has no repeats.
pub open spec fn spec_store_map(files: Seq<(Vec<u8>, Vec<u8>)>) -> Map<Seq<u8>, Seq<u8>>
    decreases files.len(),
{
    if files.len() == 0 {
        Map::empty()
    } else {
        spec_store_map(files.drop_last()).insert(files.last().0@, files.last().1@)
    }
}

/// No two files share a name.
pub open spec fn spec_store_wf(files: Seq<(Vec<u8>, Vec<u8>)>) -> bool {
    forall|i: int, j: int| 0 <= i < j < files.len() ==> files[i].0@ != files[j].0@
}

/// What one save does to a directory: nothing when the name already
/// exists (first-writer-wins), otherwise the new file appears.
pub open spec fn spec_save(m: Map<Seq<u8>, Seq<u8>>, name: Seq<u8>, bytes: Seq<u8>) -> Map<
    Seq<u8>,
    Seq<u8>,
> {
    if m.dom().contains(name) {
        m
    } else {
        m.insert(name, bytes)
    }
}

impl LogStore {
    pub open spec fn view(&self) -> Map<Seq<u8>, Seq<u8>> {
        spec_store_map(self.files@)
    }

    pub open spec fn wf(&self) -> bool {
        spec_store_wf(self.files@)
    }

    /// An empty persistence directory.
    pub fn new() -> (s: LogStore)
        ensures
            s.wf(),
            s@ == Map::<Seq<u8>, Seq<u8>>::empty(),
    {
        let s = LogStore { files: Vec::new() };
        proof {
            assert(s.files@.len() == 0);
        }
        s
    }

    /// Whether a file of this name exists.
    pub fn contains(&self, name: &Vec<u8>) -> (r: bool)
        ensures
            r == self@.dom().contains(name@),
    {
        let mut i: usize = 0;
        while i < self.files.len()
            invariant
                i <= self.files@.len(),
                forall|j: int| 0 <= j < i ==> self.files@[j].0@ != name@,
            decreases self.files@.len() - i,
        {
            if bytes_eq(&self.files[i].0, name) {
                proof {
                    lemma_store_map_contains(self.files@, i as int);
                }
                return true;
            }
            i += 1;
        }
        proof {
            lemma_store_map_absent(self.files@, name@);
        }
        false
    }

    /// Save `bytes` under `name`, unless a file of that name already
    /// exists: the first write for a name wins and later ones change
    /// nothing.
    pub fn save(&mut self, name: Vec<u8>, bytes: Vec<u8>) -> (written: bool)
        requires
            old(self).wf(),
        ensures
            final(self).wf(),
            final(self)@ == spec_save(old(self)@, name@, bytes@),
            written == !old(self)@.dom().contains(name@),
    {
        if self.contains(&name) {
            return false;
        }
        proof {
            lemma_store_map_absent_names(self.files@, name@);
        }
        let ghost before = self.files@;
        self.files.push((name, bytes));
        proof {
            assert(self.files@.drop_last() =~= before);
        }
        true
    }

    /// The bytes stored under `name`, or `None` when no such file exists.
    pub fn get(&self, name: &Vec<u8>) -> (r: Option<&Vec<u8>>)
        requires
            self.wf(),
        ensures
            match r {
                Some(b) => self@.dom().contains(name@) && self@[name@] == b@,
                None => !self@.dom().contains(name@),
            },
    {
        let mut i: usize = 0;
        while i < self.files.len()
            invariant
                i <= self.files@.len(),
                self.wf(),
                forall|j: int| 0 <= j < i ==> self.files@[j].0@ != name@,
            decreases self.files@.len() - i,
        {
            if bytes_eq(&self.files[i].0, name) {
                proof {
                    lemma_store_map_at(self.files@, i as int);
                }
                return Some(&self.files[i].1);
            }
            i += 1;
        }
        proof {
            lemma_store_map_absent(self.files@, name@);
        }
        None
    }
}

/// A listed name is in the directory's domain.
proof fn lemma_store_map_contains(files: Seq<(Vec<u8>, Vec<u8>)>, i: int)
    requires
        0 <= i < files.len(),
    ensures
        spec_store_map(files).dom().contains(files[i].0@),
    decreases files.len(),
{
    if i < files.len() - 1 {
        lemma_store_map_contains(files.drop_last(), i);
    }
}

/// A name listed nowhere is not in the directory's domain.
proof fn lemma_store_map_absent(files: Seq<(Vec<u8>, Vec<u8>)>, name: Seq<u8>)
    requires
        forall|j: int| 0 <= j < files.len() ==> files[j].0@ != name,
    ensures
        !spec_store_map(files).dom().contains(name),
    decreases files.len(),
{
    if files.len() > 0 {
        lemma_store_map_absent(files.drop_last(), name);
    }
}

/// In a store without repeated names, the file at a listed name holds
/// that entry's bytes.
proof fn lemma_store_map_at(files: Seq<(Vec<u8>, Vec<u8>)>, i: int)
    requires
        spec_store_wf(files),
        0 <= i < files.len(),
    ensures
        spec_store_map(files).dom().contains(files[i].0@),
        spec_store_map(files)[files[i].0@] == files[i].1@,
    decreases files.len(),
{
    if i < files.len() - 1 {
        lemma_store_map_at(files.drop_last(), i);
    }
}

/// A name outside the directory's domain is listed nowhere.
proof fn lemma_store_map_absent_names(files: Seq<(Vec<u8>, Vec<u8>)>, name: Seq<u8>)
    requires
        !spec_store_map(files).dom().contains(name),
    ensures
        forall|j: int| 0 <= j < files.len() ==> files[j].0@ != name,
    decreases files.len(),
{
    if files.len() > 0 {
        lemma_store_map_absent_names(files.drop_last(), name);
        assert(forall|j: int| 0 <= j < files.len() - 1 ==> files.drop_last()[j] == files[j]);
    }
}

/// Distinct identifiers persist under distinct file names, so two logs
/// with different identifiers appear as two files.
pub proof fn lemma_persist_name_injective(a: Seq<u8>, b: Seq<u8>)
    ensures
        spec_persist_name(a) == spec_persist_name(b) ==> a == b,
{
    if spec_persist_name(a) == spec_persist_name(b) {
        lemma_hex_len(a);
        lemma_hex_len(b);
        assert(spec_persist_name(a).len() == 2 * a.len() + 4);
        assert(spec_persist_name(b).len() == 2 * b.len() + 4);
        assert(a.len() == b.len());
        assert(spec_hex_of(a) =~= spec_persist_name(a).subrange(0, 2 * a.len() as int));
        assert(spec_hex_of(b) =~= spec_persist_name(b).subrange(0, 2 * b.len() as int));
        assert(spec_hex_of(a) == spec_hex_of(b));
        lemma_hex_injective(a, b);
    }
}

/// Persisting an identifier twice never changes the first-written file's
/// bytes: after the first save the directory is the same whatever bytes a
/// later save for the same name brings.
pub proof fn lemma_save_idempotent(
    m: Map<Seq<u8>, Seq<u8>>,
    name: Seq<u8>,
    bytes1: Seq<u8>,
    bytes2: Seq<u8>,
)
    ensures
        spec_save(spec_save(m, name, bytes1), name, bytes2) == spec_save(m, name, bytes1),
        spec_save(m, name, bytes1)[name] == if m.dom().contains(name) {
            m[name]
        } else {
            bytes1
        },
{
}

} // verus!
