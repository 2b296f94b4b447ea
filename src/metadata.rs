//! The column family → level → file tree, owned by its root.
use vstd::prelude::*;
use vstd::utf8::{decode_utf8, valid_utf8};

use crate::keys::{key_le, key_le_exec};
use crate::name::{before_nul, decode_name, utf8_lossy};

verus! {

/// What a table file view shows.
pub ghost struct SstFileModel {
    /// The name as stored, terminator and all.
    pub name: Seq<u8>,
    /// Size of the file in bytes.
    pub size: usize,
    /// First key of the file's range.
    pub smallestkey: Seq<u8>,
    /// Last key of the file's range.
    pub largestkey: Seq<u8>,
}

/// Metadata of one table file: its name, its size and the range of keys it
/// holds. The range is never empty: the smallest key comes no later than the
/// largest.
pub struct SstFileMetaData {
    name: Vec<u8>,
    size: usize,
    smallestkey: Vec<u8>,
    largestkey: Vec<u8>,
}

impl View for SstFileMetaData {
    type V = SstFileModel;

    closed spec fn view(&self) -> SstFileModel {
        SstFileModel {
            name: self.name@,
            size: self.size,
            smallestkey: self.smallestkey@,
            largestkey: self.largestkey@,
        }
    }
}

impl SstFileMetaData {
    #[verifier::type_invariant]
    spec fn ordered_range(self) -> bool {
        key_le(self.smallestkey@, self.largestkey@)
    }

    /// Takes a file's metadata as the engine reports it: a NUL-terminated
    /// name, a size and the two ends of its key range. Returns `None` where
    /// the smallest key sorts after the largest.
    pub fn new(name: Vec<u8>, size: usize, smallestkey: Vec<u8>, largestkey: Vec<u8>) -> (r:
        Option<SstFileMetaData>)
        ensures
            r is Some <==> key_le(smallestkey@, largestkey@),
            r matches Some(f) ==> f@ == (SstFileModel {
                name: name@,
                size,
                smallestkey: smallestkey@,
                largestkey: largestkey@,
            }),
    {
        if key_le_exec(smallestkey.as_slice(), largestkey.as_slice()) {
            Some(SstFileMetaData { name, size, smallestkey, largestkey })
        } else {
            None
        }
    }

    /// Size of the file in bytes.
    pub fn get_size(&self) -> (r: usize)
        ensures
            r == self@.size,
    {
        self.size
    }

    /// The file's name: the bytes before the terminator, decoded as UTF-8,
    /// with invalid sequences replaced rather than rejected.
    pub fn get_name(&self) -> (r: String)
        ensures
            r@ == utf8_lossy(before_nul(self@.name)),
            valid_utf8(before_nul(self@.name)) ==> r@ == decode_utf8(before_nul(self@.name)),
    {
        decode_name(self.name.as_slice())
    }

    /// The first key of the file's range; it sorts no later than the last.
    pub fn get_smallestkey(&self) -> (r: &[u8])
        ensures
            r@ == self@.smallestkey,
            key_le(r@, self@.largestkey),
    {
        proof {
            use_type_invariant(self);
        }
        self.smallestkey.as_slice()
    }

    /// The last key of the file's range; it sorts no earlier than the first.
    pub fn get_largestkey(&self) -> (r: &[u8])
        ensures
            r@ == self@.largestkey,
            key_le(self@.smallestkey, r@),
    {
        proof {
            use_type_invariant(self);
        }
        self.largestkey.as_slice()
    }
}

/// Metadata of one level: its table files, in the engine's order.
pub struct LevelMetaData {
    files: Vec<SstFileMetaData>,
}

impl View for LevelMetaData {
    type V = Seq<SstFileModel>;

    closed spec fn view(&self) -> Seq<SstFileModel> {
        self.files@.map_values(|f: SstFileMetaData| f@)
    }
}

impl LevelMetaData {
    /// A level holding `files`, in that order.
    pub fn new(files: Vec<SstFileMetaData>) -> (r: LevelMetaData)
        ensures
            r@ == files@.map_values(|f: SstFileMetaData| f@),
    {
        LevelMetaData { files }
    }

    /// Views of the level's files, in order, each borrowed from the level.
    pub fn get_files(&self) -> (r: Vec<&SstFileMetaData>)
        ensures
            r@.len() == self@.len(),
            forall|i: int| 0 <= i < r@.len() ==> #[trigger] r@[i]@ == self@[i],
    {
        let mut files: Vec<&SstFileMetaData> = Vec::new();
        let n = self.files.len();
        let mut i: usize = 0;
        while i < n
            invariant
                n == self.files@.len(),
                i <= n,
                files@.len() == i,
                forall|j: int| 0 <= j < i ==> #[trigger] files@[j] == &self.files@[j],
            decreases n - i,
        {
            files.push(&self.files[i]);
            i = i + 1;
        }
        files
    }
}

/// Number of files in level `level` of a column family, and 0 for an index
/// past its last level.
pub open spec fn level_files_count(levels: Seq<Seq<SstFileModel>>, level: int) -> nat {
    if 0 <= level < levels.len() {
        levels[level].len()
    } else {
        0
    }
}

/// Number of files in the first `n` levels, counted level by level through
/// the levels' own file lists.
pub open spec fn files_in_levels(levels: Seq<Seq<SstFileModel>>, n: int) -> nat
    decreases n,
{
    if n <= 0 {
        0
    } else {
        files_in_levels(levels, n - 1) + levels[n - 1].len()
    }
}

/// Sum of the per-index counts over the indices below `n`.
pub open spec fn sum_level_files_counts(levels: Seq<Seq<SstFileModel>>, n: int) -> nat
    decreases n,
{
    if n <= 0 {
        0
    } else {
        sum_level_files_counts(levels, n - 1) + level_files_count(levels, n - 1)
    }
}

/// Metadata of a column family at the time it was taken: its levels, level 0
/// first. It owns the whole tree; level and file views are borrowed from it.
pub struct ColumnFamilyMetaData {
    levels: Vec<LevelMetaData>,
}

impl View for ColumnFamilyMetaData {
    type V = Seq<Seq<SstFileModel>>;

    closed spec fn view(&self) -> Seq<Seq<SstFileModel>> {
        self.levels@.map_values(|l: LevelMetaData| l@)
    }
}

impl ColumnFamilyMetaData {
    /// A column family holding `levels`, level 0 first.
    pub fn from_levels(levels: Vec<LevelMetaData>) -> (r: ColumnFamilyMetaData)
        ensures
            r@ == levels@.map_values(|l: LevelMetaData| l@),
    {
        ColumnFamilyMetaData { levels }
    }

    /// Views of the levels, level 0 first, each borrowed from this root.
    pub fn get_levels(&self) -> (r: Vec<&LevelMetaData>)
        ensures
            r@.len() == self@.len(),
            forall|i: int| 0 <= i < r@.len() ==> #[trigger] r@[i]@ == self@[i],
    {
        let mut levels: Vec<&LevelMetaData> = Vec::new();
        let n = self.levels.len();
        let mut i: usize = 0;
        while i < n
            invariant
                n == self.levels@.len(),
                i <= n,
                levels@.len() == i,
                forall|j: int| 0 <= j < i ==> #[trigger] levels@[j] == &self.levels@[j],
            decreases n - i,
        {
            levels.push(&self.levels[i]);
            i = i + 1;
        }
        levels
    }

    /// Number of files in level `level`; 0 where there is no such level.
    pub fn get_level_files_count(&self, level: usize) -> (r: usize)
        ensures
            r == level_files_count(self@, level as int),
            level >= self@.len() ==> r == 0,
    {
        if level >= self.levels.len() {
            return 0;
        }
        self.levels[level].files.len()
    }

    /// The count of each level, read through `get_levels` and `get_files`,
    /// is what `get_level_files_count` gives for that index, and so the files
    /// of all levels add up to the sum of those counts.
    pub proof fn lemma_level_files_counts_agree(&self)
        ensures
            forall|i: int|
                0 <= i < self@.len() ==> #[trigger] self@[i].len() == level_files_count(self@, i),
            files_in_levels(self@, self@.len() as int) == sum_level_files_counts(
                self@,
                self@.len() as int,
            ),
    {
        lemma_sums_agree(self@, self@.len() as int);
    }
}

proof fn lemma_sums_agree(levels: Seq<Seq<SstFileModel>>, n: int)
    requires
        n <= levels.len(),
    ensures
        files_in_levels(levels, n) == sum_level_files_counts(levels, n),
    decreases n,
{
    if n > 0 {
        lemma_sums_agree(levels, n - 1);
    }
}

} // verus!
