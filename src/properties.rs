//! A device's property table, flattened to key / display name / text value entries.
use vstd::prelude::*;
use crate::node::{IndexedFailure, ReadFailure};

verus! {

/// The platform's answers for one index of a property store. `name` and
/// `description` are absent when the platform has none for the key.
pub struct PropertyRead {
    pub key: Result<String, ReadFailure>,
    pub value: Result<String, ReadFailure>,
    pub name: Option<String>,
    pub description: Option<String>,
}

/// One metadatum of a device, its value rendered as text.
#[derive(Debug)]
pub struct PropertyEntry {
    pub key: String,
    pub name: Option<String>,
    pub value: String,
    pub description: Option<String>,
}

/// The entries that could be read, and the indices whose read failed.
#[derive(Debug)]
pub struct PropertyReport {
    pub entries: Vec<PropertyEntry>,
    pub failures: Vec<IndexedFailure>,
}

/// The read of one index succeeds when its key and its value were read.
pub open spec fn read_ok(read: PropertyRead) -> bool {
    read.key is Ok && read.value is Ok
}

/// The failure recorded for an index whose read did not succeed: the key's, else the value's.
pub open spec fn read_failure(read: PropertyRead) -> ReadFailure {
    if read.key is Err {
        read.key->Err_0
    } else {
        read.value->Err_0
    }
}

pub open spec fn entry_of(read: PropertyRead) -> PropertyEntry {
    PropertyEntry {
        key: read.key->Ok_0,
        name: read.name,
        value: read.value->Ok_0,
        description: read.description,
    }
}

/// Entries of the indices that were read, in index order.
pub open spec fn property_entries(reads: Seq<PropertyRead>) -> Seq<PropertyEntry>
    decreases reads.len(),
{
    if reads.len() == 0 {
        Seq::empty()
    } else {
        let before = property_entries(reads.drop_last());
        if read_ok(reads.last()) {
            before.push(entry_of(reads.last()))
        } else {
            before
        }
    }
}

/// Failures of the indices that were not read, in index order.
pub open spec fn property_failures(reads: Seq<PropertyRead>) -> Seq<IndexedFailure>
    decreases reads.len(),
{
    if reads.len() == 0 {
        Seq::empty()
    } else {
        let before = property_failures(reads.drop_last());
        if read_ok(reads.last()) {
            before
        } else {
            before.push(
                IndexedFailure { index: (reads.len() - 1) as usize, failure: read_failure(reads.last()) },
            )
        }
    }
}

fn copy_text(t: &Option<String>) -> (r: Option<String>)
    ensures
        r == *t,
{
    match t {
        Some(s) => Some(s.clone()),
        None => None,
    }
}

/// Converts every index of a property store into an entry; an index whose key
/// or value could not be read is recorded as a failure and the rest go on.
/// A missing display name or description is no failure.
pub fn extract_properties(reads: &Vec<PropertyRead>) -> (r: PropertyReport)
    ensures
        r.entries@ == property_entries(reads@),
        r.failures@ == property_failures(reads@),
{
    let mut entries: Vec<PropertyEntry> = Vec::new();
    let mut failures: Vec<IndexedFailure> = Vec::new();
    let mut i: usize = 0;
    while i < reads.len()
        invariant
            i <= reads@.len(),
            entries@ == property_entries(reads@.subrange(0, i as int)),
            failures@ == property_failures(reads@.subrange(0, i as int)),
        decreases reads@.len() - i,
    {
        let ghost head = reads@.subrange(0, i as int + 1);
        assert(head.drop_last() =~= reads@.subrange(0, i as int));
        let read = &reads[i];
        match (&read.key, &read.value) {
            (Ok(key), Ok(value)) => {
                entries.push(
                    PropertyEntry {
                        key: key.clone(),
                        name: copy_text(&read.name),
                        value: value.clone(),
                        description: copy_text(&read.description),
                    },
                );
            },
            (Err(f), _) => {
                failures.push(IndexedFailure { index: i, failure: *f });
            },
            (Ok(_), Err(f)) => {
                failures.push(IndexedFailure { index: i, failure: *f });
            },
        }
        i = i + 1;
    }
    assert(reads@.subrange(0, reads@.len() as int) =~= reads@);
    PropertyReport { entries, failures }
}

/// A store whose reads all succeed but at index `k` gives every entry but
/// that one, and exactly one failure, at `k`: the report is not cut short.
pub proof fn lemma_single_failing_read(reads: Seq<PropertyRead>, k: int)
    requires
        0 <= k < reads.len(),
        !read_ok(reads[k]),
        forall|i: int| 0 <= i < reads.len() && i != k ==> read_ok(#[trigger] reads[i]),
    ensures
        property_entries(reads).len() == reads.len() - 1,
        property_failures(reads) == seq![
            IndexedFailure { index: k as usize, failure: read_failure(reads[k]) },
        ],
    decreases reads.len(),
{
    let before = reads.drop_last();
    if k == reads.len() - 1 {
        lemma_all_read(before);
    } else {
        lemma_single_failing_read(before, k);
    }
}

/// A store whose reads all succeed gives one entry per index and no failure.
pub proof fn lemma_all_read(reads: Seq<PropertyRead>)
    requires
        forall|i: int| 0 <= i < reads.len() ==> read_ok(#[trigger] reads[i]),
    ensures
        property_entries(reads).len() == reads.len(),
        property_failures(reads) == Seq::<IndexedFailure>::empty(),
    decreases reads.len(),
{
    if reads.len() > 0 {
        lemma_all_read(reads.drop_last());
    }
}

} // verus!
