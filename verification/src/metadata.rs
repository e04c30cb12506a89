//! The record of conversions: for each source file of a profile, the
//! modification time it had when it was last converted.

use crate::text::same_text;
use vstd::prelude::*;

verus! {

/// One tracked file: its path and its modification time, in seconds since the
/// epoch, at its last successful conversion.
pub struct MetadataEntry {
    pub source_file: String,
    pub mtime: i64,
}

/// The keys and values of a list of entries.
pub open spec fn pairs(rows: Seq<MetadataEntry>) -> Seq<(Seq<char>, i64)> {
    Seq::new(rows.len(), |i: int| (rows[i].source_file@, rows[i].mtime))
}

/// The map that a list of pairs builds up, a later pair replacing an earlier
/// one with the same key.
pub open spec fn pairs_map(p: Seq<(Seq<char>, i64)>) -> Map<Seq<char>, i64>
    decreases p.len(),
{
    if p.len() == 0 {
        Map::empty()
    } else {
        pairs_map(p.drop_last()).insert(p.last().0, p.last().1)
    }
}

/// The map that a list of entries builds up, a later entry replacing an
/// earlier one for the same file.
pub open spec fn rows_map(rows: Seq<MetadataEntry>) -> Map<Seq<char>, i64> {
    pairs_map(pairs(rows))
}

/// Whether no key occurs twice.
pub open spec fn distinct_keys(p: Seq<(Seq<char>, i64)>) -> bool {
    forall|i: int, j: int| 0 <= i < j < p.len() ==> p[i].0 != p[j].0
}

proof fn lemma_absent(p: Seq<(Seq<char>, i64)>, key: Seq<char>)
    requires
        forall|i: int| 0 <= i < p.len() ==> p[i].0 != key,
    ensures
        !pairs_map(p).contains_key(key),
    decreases p.len(),
{
    if p.len() > 0 {
        lemma_absent(p.drop_last(), key);
    }
}

proof fn lemma_present(p: Seq<(Seq<char>, i64)>, at: int)
    requires
        distinct_keys(p),
        0 <= at < p.len(),
    ensures
        pairs_map(p).contains_key(p[at].0),
        pairs_map(p)[p[at].0] == p[at].1,
    decreases p.len(),
{
    if at < p.len() - 1 {
        lemma_present(p.drop_last(), at);
    }
}

proof fn lemma_replace(p: Seq<(Seq<char>, i64)>, at: int, mtime: i64)
    requires
        distinct_keys(p),
        0 <= at < p.len(),
    ensures
        pairs_map(p.update(at, (p[at].0, mtime))) == pairs_map(p).insert(p[at].0, mtime),
    decreases p.len(),
{
    let q = p.update(at, (p[at].0, mtime));
    if at == p.len() - 1 {
        assert(q.drop_last() =~= p.drop_last());
        assert(pairs_map(q) =~= pairs_map(p).insert(p[at].0, mtime));
    } else {
        lemma_replace(p.drop_last(), at, mtime);
        assert(q.drop_last() =~= p.drop_last().update(at, (p[at].0, mtime)));
        assert(pairs_map(q) =~= pairs_map(p).insert(p[at].0, mtime));
    }
}

proof fn lemma_size(p: Seq<(Seq<char>, i64)>)
    requires
        distinct_keys(p),
    ensures
        pairs_map(p).dom().finite(),
        pairs_map(p).dom().len() == p.len(),
    decreases p.len(),
{
    if p.len() > 0 {
        let front = p.drop_last();
        lemma_size(front);
        assert forall|i: int| 0 <= i < front.len() implies front[i].0 != p.last().0 by {
            assert(front[i] == p[i]);
        }
        lemma_absent(front, p.last().0);
        assert(pairs_map(p).dom() =~= pairs_map(front).dom().insert(p.last().0));
    }
}

/// Notes of different files can be made in either order: the record comes
/// out the same.
pub proof fn lemma_upserts_commute(
    record: Map<Seq<char>, i64>,
    first: Seq<char>,
    first_mtime: i64,
    second: Seq<char>,
    second_mtime: i64,
)
    requires
        first != second,
    ensures
        record.insert(first, first_mtime).insert(second, second_mtime) == record.insert(
            second,
            second_mtime,
        ).insert(first, first_mtime),
{
    assert(record.insert(first, first_mtime).insert(second, second_mtime) =~= record.insert(
        second,
        second_mtime,
    ).insert(first, first_mtime));
}

/// A note never takes a file out of the record, and changes the time of no
/// other file.
pub proof fn lemma_upsert_keeps_the_rest(
    record: Map<Seq<char>, i64>,
    source_file: Seq<char>,
    mtime: i64,
    other: Seq<char>,
)
    requires
        record.contains_key(other),
    ensures
        record.insert(source_file, mtime).contains_key(other),
        other != source_file ==> record.insert(source_file, mtime)[other] == record[other],
        record.insert(source_file, mtime)[source_file] == mtime,
{
}

/// The tracked files of one profile, each with the modification time of its
/// last successful conversion. No file is tracked twice.
pub struct Metadata {
    entries: Vec<MetadataEntry>,
}

impl View for Metadata {
    type V = Map<Seq<char>, i64>;

    closed spec fn view(&self) -> Map<Seq<char>, i64> {
        rows_map(self.entries@)
    }
}

impl Metadata {
    #[verifier::type_invariant]
    spec fn well_formed(&self) -> bool {
        distinct_keys(pairs(self.entries@))
    }

    /// A record that tracks no file.
    pub fn new() -> (out: Metadata)
        ensures
            out@ == Map::<Seq<char>, i64>::empty(),
    {
        Metadata { entries: Vec::new() }
    }

    /// Where `source_file` stands among the entries.
    fn position(&self, source_file: &str) -> (at: Option<usize>)
        ensures
            match at {
                Some(i) => i < self.entries.len() && self.entries@[i as int].source_file@
                    == source_file@,
                None => forall|i: int|
                    0 <= i < self.entries.len() ==> self.entries@[i].source_file@ != source_file@,
            },
    {
        let mut i: usize = 0;
        while i < self.entries.len()
            invariant
                i <= self.entries.len(),
                forall|j: int| 0 <= j < i ==> self.entries@[j].source_file@ != source_file@,
            decreases self.entries.len() - i,
        {
            if same_text(self.entries[i].source_file.as_str(), source_file) {
                return Some(i);
            }
            i += 1;
        }
        None
    }

    /// The modification time tracked for `source_file`, if it is tracked.
    pub fn get(&self, source_file: &str) -> (known: Option<i64>)
        ensures
            match known {
                Some(mtime) => self@.contains_key(source_file@) && self@[source_file@] == mtime,
                None => !self@.contains_key(source_file@),
            },
    {
        proof {
            use_type_invariant(self);
        }
        match self.position(source_file) {
            Some(i) => {
                proof {
                    lemma_present(pairs(self.entries@), i as int);
                }
                Some(self.entries[i].mtime)
            },
            None => {
                proof {
                    lemma_absent(pairs(self.entries@), source_file@);
                }
                None
            },
        }
    }

    /// Tracks `source_file` with `mtime`: a new entry if the file was not
    /// tracked, else its entry with the new time. Nothing else changes.
    pub fn upsert(&mut self, source_file: &str, mtime: i64)
        ensures
            final(self)@ == old(self)@.insert(source_file@, mtime),
    {
        proof {
            use_type_invariant(&*self);
        }
        let ghost before = pairs(self.entries@);
        let entry = MetadataEntry { source_file: source_file.to_owned(), mtime };
        let found = self.position(source_file);
        let mut entries: Vec<MetadataEntry> = Vec::new();
        std::mem::swap(&mut self.entries, &mut entries);
        match found {
            Some(i) => {
                entries.set(i, entry);
                proof {
                    lemma_replace(before, i as int, mtime);
                    assert(pairs(entries@) =~= before.update(i as int, (source_file@, mtime)));
                }
            },
            None => {
                entries.push(entry);
                proof {
                    assert(pairs(entries@) =~= before.push((source_file@, mtime)));
                    assert(pairs(entries@).drop_last() =~= before);
                }
            },
        }
        self.entries = entries;
    }

    /// How many files are tracked.
    pub fn len(&self) -> (n: usize)
        ensures
            self@.dom().finite(),
            n == self@.len(),
    {
        proof {
            use_type_invariant(self);
            lemma_size(pairs(self.entries@));
        }
        self.entries.len()
    }

    /// The tracked files with their times, each once, in the order in which
    /// they were first tracked.
    pub fn entries(&self) -> (rows: Vec<MetadataEntry>)
        ensures
            distinct_keys(pairs(rows@)),
            rows_map(rows@) == self@,
    {
        proof {
            use_type_invariant(self);
        }
        let mut rows: Vec<MetadataEntry> = Vec::new();
        let mut i: usize = 0;
        while i < self.entries.len()
            invariant
                i <= self.entries.len(),
                rows.len() == i,
                forall|j: int|
                    0 <= j < i ==> rows@[j].source_file@ == self.entries@[j].source_file@
                        && rows@[j].mtime == self.entries@[j].mtime,
            decreases self.entries.len() - i,
        {
            let entry = &self.entries[i];
            rows.push(MetadataEntry { source_file: entry.source_file.clone(), mtime: entry.mtime });
            i += 1;
        }
        assert(pairs(rows@) =~= pairs(self.entries@));
        rows
    }

    /// The record that a list of rows builds up, a later row replacing an
    /// earlier one for the same file.
    pub fn from_rows(rows: &Vec<MetadataEntry>) -> (out: Metadata)
        ensures
            out@ == rows_map(rows@),
    {
        let mut out = Metadata::new();
        let mut i: usize = 0;
        while i < rows.len()
            invariant
                i <= rows.len(),
                out@ == pairs_map(pairs(rows@).take(i as int)),
            decreases rows.len() - i,
        {
            proof {
                let upto = pairs(rows@).take(i + 1);
                assert(upto.drop_last() =~= pairs(rows@).take(i as int));
            }
            out.upsert(rows[i].source_file.as_str(), rows[i].mtime);
            i += 1;
        }
        assert(pairs(rows@).take(i as int) =~= pairs(rows@));
        out
    }
}

} // verus!
