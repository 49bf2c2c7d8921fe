//! Per-type file counts: a map from file type to the number of files of that type.

use vstd::prelude::*;
use crate::text::same_text;

verus! {

/// What is counted for one file type.
#[derive(Debug)]
pub struct FileStats {
    pub files: usize,
}

impl FileStats {
    /// The statistics of a file type of which no file has been seen.
    pub fn new() -> (stats: Self)
        ensures
            stats.files == 0,
    {
        Self { files: 0 }
    }
}

/// A file type with its statistics.
#[derive(Debug)]
pub struct TypeCount {
    name: String,
    stats: FileStats,
}

impl TypeCount {
    /// The file type.
    pub closed spec fn spec_name(&self) -> Seq<char> {
        self.name@
    }

    /// The number of files of that type.
    pub closed spec fn spec_files(&self) -> nat {
        self.stats.files as nat
    }

    /// The file type.
    pub fn name(&self) -> (name: &String)
        ensures
            name@ == self.spec_name(),
    {
        &self.name
    }

    /// The number of files of that type.
    pub fn files(&self) -> (files: usize)
        ensures
            files == self.spec_files(),
    {
        self.stats.files
    }
}

/// The file types of a list of counts.
pub open spec fn names(entries: Seq<TypeCount>) -> Seq<Seq<char>> {
    entries.map_values(|e: TypeCount| e.spec_name())
}

/// The number of files over a list of counts.
pub open spec fn sum_files(entries: Seq<TypeCount>) -> nat
    decreases entries.len(),
{
    if entries.len() == 0 {
        0
    } else {
        sum_files(entries.drop_last()) + entries.last().spec_files()
    }
}

/// The number of files that a list of counts holds for the type `name`.
pub open spec fn files_of(entries: Seq<TypeCount>, name: Seq<char>) -> nat
    decreases entries.len(),
{
    if entries.len() == 0 {
        0
    } else if entries.last().spec_name() == name {
        entries.last().spec_files()
    } else {
        files_of(entries.drop_last(), name)
    }
}

/// The map that a list of counts with distinct names stands for.
pub open spec fn as_map(entries: Seq<TypeCount>) -> Map<Seq<char>, nat> {
    Map::new(|name: Seq<char>| names(entries).contains(name), |name: Seq<char>| files_of(entries, name))
}

/// The count that `counts` holds for `name`: zero for a type that it does not hold.
pub open spec fn count_in(counts: Map<Seq<char>, nat>, name: Seq<char>) -> nat {
    if counts.contains_key(name) {
        counts[name]
    } else {
        0
    }
}

/// A type that is not held has no files.
proof fn lemma_files_of_absent(entries: Seq<TypeCount>, name: Seq<char>)
    requires
        !names(entries).contains(name),
    ensures
        files_of(entries, name) == 0,
    decreases entries.len(),
{
    if entries.len() > 0 {
        assert(names(entries)[entries.len() - 1] == entries.last().spec_name());
        assert forall|i: int| 0 <= i < entries.len() - 1 implies names(entries.drop_last())[i] != name by {
            assert(names(entries)[i] == names(entries.drop_last())[i]);
        }
        lemma_files_of_absent(entries.drop_last(), name);
    }
}

/// Where the names are distinct, the files of a name are those of its entry.
proof fn lemma_files_of_at(entries: Seq<TypeCount>, i: int)
    requires
        0 <= i < entries.len(),
        names(entries).no_duplicates(),
    ensures
        files_of(entries, entries[i].spec_name()) == entries[i].spec_files(),
    decreases entries.len(),
{
    let last = entries.len() - 1;
    if i < last {
        assert(names(entries)[i] == entries[i].spec_name());
        assert(names(entries)[last] == entries[last].spec_name());
        assert forall|a: int, b: int|
            0 <= a < last && 0 <= b < last && a != b implies names(entries.drop_last())[a] != names(
            entries.drop_last(),
        )[b] by {
            assert(names(entries)[a] == names(entries.drop_last())[a]);
            assert(names(entries)[b] == names(entries.drop_last())[b]);
        }
        lemma_files_of_at(entries.drop_last(), i);
    }
}

/// No entry holds more files than all together.
proof fn lemma_sum_bounds(entries: Seq<TypeCount>, i: int)
    requires
        0 <= i < entries.len(),
    ensures
        entries[i].spec_files() <= sum_files(entries),
    decreases entries.len(),
{
    if i < entries.len() - 1 {
        lemma_sum_bounds(entries.drop_last(), i);
    }
}

/// The number of files seen of each file type. A type is held once it has been seen, so
/// every count that is held is at least one.
#[derive(Debug)]
pub struct TypeCounts {
    entries: Vec<TypeCount>,
}

impl View for TypeCounts {
    type V = Map<Seq<char>, nat>;

    closed spec fn view(&self) -> Map<Seq<char>, nat> {
        as_map(self.entries@)
    }
}

impl TypeCounts {
    #[verifier::type_invariant]
    spec fn valid(&self) -> bool {
        &&& names(self.entries@).no_duplicates()
        &&& sum_files(self.entries@) <= usize::MAX
        &&& forall|i: int| 0 <= i < self.entries@.len() ==> #[trigger] self.entries@[i].spec_files() >= 1
    }

    /// The number of files counted, over all types.
    pub closed spec fn total(&self) -> nat {
        sum_files(self.entries@)
    }

    /// The counts before any file has been seen.
    pub fn new() -> (counts: Self)
        ensures
            counts@ == Map::<Seq<char>, nat>::empty(),
            counts.total() == 0,
    {
        let counts = TypeCounts { entries: Vec::new() };
        assert(counts@ =~= Map::<Seq<char>, nat>::empty());
        counts
    }

    /// Where the count of `file_type` is held, if it is held.
    fn position(&self, file_type: &str) -> (found: Option<usize>)
        ensures
            match found {
                Some(i) => i < self.entries@.len() && self.entries@[i as int].spec_name() == file_type@,
                None => !names(self.entries@).contains(file_type@),
            },
    {
        let mut i: usize = 0;
        while i < self.entries.len()
            invariant
                i <= self.entries@.len(),
                forall|k: int| 0 <= k < i ==> self.entries@[k].spec_name() != file_type@,
            decreases self.entries@.len() - i,
        {
            if same_text(self.entries[i].name.as_str(), file_type) {
                return Some(i);
            }
            i += 1;
        }
        None
    }

    /// The number of files counted for `file_type`.
    pub fn get(&self, file_type: &str) -> (files: usize)
        ensures
            files == count_in(self@, file_type@),
    {
        proof {
            use_type_invariant(self);
        }
        match self.position(file_type) {
            Some(i) => {
                proof {
                    lemma_files_of_at(self.entries@, i as int);
                    assert(names(self.entries@)[i as int] == file_type@);
                }
                self.entries[i].stats.files
            },
            None => 0,
        }
    }

    /// The number of files counted, over all types.
    pub fn total_files(&self) -> (files: usize)
        ensures
            files == self.total(),
    {
        proof {
            use_type_invariant(self);
        }
        let mut files: usize = 0;
        let mut i: usize = 0;
        while i < self.entries.len()
            invariant
                i <= self.entries@.len(),
                files == sum_files(self.entries@.take(i as int)),
                sum_files(self.entries@) <= usize::MAX,
            decreases self.entries@.len() - i,
        {
            proof {
                let next = self.entries@.take(i as int + 1);
                assert(next.drop_last() == self.entries@.take(i as int));
                assert(next.last() == self.entries@[i as int]);
                lemma_sum_prefix(self.entries@, i as int + 1);
            }
            files = files + self.entries[i].stats.files;
            i += 1;
        }
        assert(self.entries@.take(i as int) == self.entries@);
        files
    }

    /// The number of file types that are held.
    pub fn len(&self) -> (types: usize)
        ensures
            types == self@.dom().len(),
            self@.dom().finite(),
    {
        proof {
            use_type_invariant(self);
            lemma_domain(self.entries@);
        }
        self.entries.len()
    }

    /// The counts as a list, one entry for each type that is held.
    pub fn entries(&self) -> (list: &Vec<TypeCount>)
        ensures
            names(list@).no_duplicates(),
            as_map(list@) == self@,
            sum_files(list@) == self.total(),
    {
        proof {
            use_type_invariant(self);
        }
        &self.entries
    }

    /// The counts after one more file of the type `file_type`.
    pub fn record(self, file_type: String) -> (counts: Self)
        requires
            self.total() < usize::MAX,
        ensures
            counts@ == self@.insert(file_type@, count_in(self@, file_type@) + 1),
            counts.total() == self.total() + 1,
    {
        proof {
            use_type_invariant(&self);
        }
        let ghost before = self.entries@;
        let found = self.position(file_type.as_str());
        let mut entries = self.entries;
        match found {
            Some(i) => {
                proof {
                    lemma_sum_bounds(before, i as int);
                    lemma_files_of_at(before, i as int);
                    assert(names(before)[i as int] == file_type@);
                }
                let files = entries[i].stats.files + 1;
                entries.set(i, TypeCount { name: file_type, stats: FileStats { files } });
                proof {
                    lemma_replace(before, entries@, i as int);
                }
            },
            None => {
                proof {
                    lemma_files_of_absent(before, file_type@);
                }
                entries.push(TypeCount { name: file_type, stats: FileStats { files: 1 } });
                proof {
                    assert(entries@.drop_last() == before);
                    lemma_append(before, entries@);
                }
            },
        }
        let counts = TypeCounts { entries };
        proof {
            let wanted = self@.insert(file_type@, count_in(self@, file_type@) + 1);
            assert forall|name: Seq<char>| counts@.contains_key(name) == wanted.contains_key(name) by {
                if names(before).contains(name) {
                    let k = choose|k: int| 0 <= k < before.len() && names(before)[k] == name;
                    assert(names(counts.entries@)[k] == name);
                }
                if names(counts.entries@).contains(name) && name != file_type@ {
                    let k = choose|k: int| 0 <= k < counts.entries@.len() && names(counts.entries@)[k] == name;
                    assert(names(before)[k] == name);
                }
                if name == file_type@ {
                    if found is Some {
                        assert(names(counts.entries@)[found.unwrap() as int] == name);
                    } else {
                        assert(names(counts.entries@)[before.len() as int] == name);
                    }
                }
            }
            assert forall|name: Seq<char>| counts@.contains_key(name) implies counts@[name] == wanted[name] by {
                if found is None && name != file_type@ {
                    assert(files_of(counts.entries@, name) == files_of(before, name));
                }
            }
            assert(counts@ =~= wanted);
        }
        counts
    }
}

/// The first entries hold no more files than all together.
proof fn lemma_sum_prefix(entries: Seq<TypeCount>, n: int)
    requires
        0 <= n <= entries.len(),
    ensures
        sum_files(entries.take(n)) <= sum_files(entries),
    decreases entries.len(),
{
    if n < entries.len() {
        assert(entries.drop_last().take(n) == entries.take(n));
        lemma_sum_prefix(entries.drop_last(), n);
    } else {
        assert(entries.take(n) == entries);
    }
}

/// What replacing the entry at `i` by one of the same name with one more file does.
proof fn lemma_replace(before: Seq<TypeCount>, after: Seq<TypeCount>, i: int)
    requires
        0 <= i < before.len(),
        after.len() == before.len(),
        names(before).no_duplicates(),
        after[i].spec_name() == before[i].spec_name(),
        after[i].spec_files() == before[i].spec_files() + 1,
        forall|k: int| 0 <= k < before.len() && k != i ==> after[k] == before[k],
    ensures
        names(after) == names(before),
        sum_files(after) == sum_files(before) + 1,
        forall|name: Seq<char>|
            files_of(after, name) == if name == before[i].spec_name() {
                before[i].spec_files() + 1
            } else {
                files_of(before, name)
            },
    decreases before.len(),
{
    assert(names(after) =~= names(before));
    let last = before.len() - 1;
    assert(names(before)[i] == before[i].spec_name());
    assert(names(before)[last] == before[last].spec_name());
    if i == last {
        assert(after.drop_last() =~= before.drop_last());
        assert forall|name: Seq<char>|
            files_of(after, name) == if name == before[i].spec_name() {
                before[i].spec_files() + 1
            } else {
                files_of(before, name)
            } by {}
    } else {
        assert forall|a: int, b: int|
            0 <= a < last && 0 <= b < last && a != b implies names(before.drop_last())[a] != names(
            before.drop_last(),
        )[b] by {
            assert(names(before)[a] == names(before.drop_last())[a]);
            assert(names(before)[b] == names(before.drop_last())[b]);
        }
        lemma_replace(before.drop_last(), after.drop_last(), i);
        assert(after.last() == before.last());
        assert(before.drop_last()[i] == before[i]);
        assert(names(before)[i] != names(before)[last]);
        assert forall|name: Seq<char>|
            files_of(after, name) == if name == before[i].spec_name() {
                before[i].spec_files() + 1
            } else {
                files_of(before, name)
            } by {
            if name != before.last().spec_name() {
                assert(files_of(after, name) == files_of(after.drop_last(), name));
                assert(files_of(before, name) == files_of(before.drop_last(), name));
            }
        }
    }
}

/// What appending an entry of a new name does.
proof fn lemma_append(before: Seq<TypeCount>, after: Seq<TypeCount>)
    requires
        after.len() == before.len() + 1,
        after.drop_last() == before,
        names(before).no_duplicates(),
        !names(before).contains(after.last().spec_name()),
    ensures
        names(after) == names(before).push(after.last().spec_name()),
        names(after).no_duplicates(),
        sum_files(after) == sum_files(before) + after.last().spec_files(),
{
    assert(names(after) =~= names(before).push(after.last().spec_name()));
    assert forall|a: int, b: int| 0 <= a < after.len() && 0 <= b < after.len() && a != b implies names(
        after,
    )[a] != names(after)[b] by {
        if a < before.len() {
            assert(names(before)[a] == names(after)[a]);
        }
        if b < before.len() {
            assert(names(before)[b] == names(after)[b]);
        }
    }
}

/// A list of counts with distinct names holds as many types as it has entries.
proof fn lemma_domain(entries: Seq<TypeCount>)
    requires
        names(entries).no_duplicates(),
    ensures
        as_map(entries).dom().finite(),
        as_map(entries).dom().len() == entries.len(),
{
    assert(as_map(entries).dom() =~= names(entries).to_set());
    names(entries).unique_seq_to_set();
}

} // verus!
