//! The descriptor of one topology node, assembled from the platform's field reads.
use vstd::prelude::*;
use crate::labels::{PartType, part_type_from_code, part_type_spec};

verus! {

/// A single read that the platform refused, with its status code.
#[derive(Clone, Copy, Debug, PartialEq, Eq, Structural)]
pub struct ReadFailure {
    pub code: i32,
}

/// A read that failed at one position of an indexed list.
#[derive(Clone, Copy, Debug, PartialEq, Eq, Structural)]
pub struct IndexedFailure {
    pub index: usize,
    pub failure: ReadFailure,
}

/// A control interface attached to a node.
#[derive(Debug)]
pub struct ControlInterface {
    pub iid: u128,
    pub name: String,
}

impl ControlInterface {
    pub fn duplicate(&self) -> (r: ControlInterface)
        ensures
            r == *self,
    {
        ControlInterface { iid: self.iid, name: self.name.clone() }
    }
}

/// The platform's answers to the reads of one node's fields, in the order
/// they are made. `interfaces` holds one answer per control-interface index,
/// or the failure of the count query.
pub struct NodeReads {
    pub name: Result<String, ReadFailure>,
    pub global_id: Result<String, ReadFailure>,
    pub local_id: Result<u32, ReadFailure>,
    pub sub_type: Result<u128, ReadFailure>,
    pub part_type: Result<i32, ReadFailure>,
    pub interfaces: Result<Vec<Result<ControlInterface, ReadFailure>>, ReadFailure>,
}

/// The descriptor of one node.
#[derive(Debug)]
pub struct NodeInfo {
    pub name: String,
    pub global_id: String,
    pub local_id: u32,
    pub sub_type: u128,
    pub part_type: PartType,
    /// The control interfaces that could be read, in index order.
    pub interfaces: Vec<ControlInterface>,
    /// The control-interface indices whose read failed, in index order.
    pub interface_failures: Vec<IndexedFailure>,
}

/// The first field read that failed, if any; such a failure loses the descriptor.
pub open spec fn field_failure(reads: NodeReads) -> Option<ReadFailure> {
    if reads.name is Err {
        Some(reads.name->Err_0)
    } else if reads.global_id is Err {
        Some(reads.global_id->Err_0)
    } else if reads.local_id is Err {
        Some(reads.local_id->Err_0)
    } else if reads.sub_type is Err {
        Some(reads.sub_type->Err_0)
    } else if reads.part_type is Err {
        Some(reads.part_type->Err_0)
    } else if reads.interfaces is Err {
        Some(reads.interfaces->Err_0)
    } else {
        None
    }
}

/// The interfaces of `answers` that were read, in order.
pub open spec fn read_interfaces(answers: Seq<Result<ControlInterface, ReadFailure>>) -> Seq<
    ControlInterface,
>
    decreases answers.len(),
{
    if answers.len() == 0 {
        Seq::empty()
    } else {
        let before = read_interfaces(answers.drop_last());
        match answers.last() {
            Ok(c) => before.push(c),
            Err(_) => before,
        }
    }
}

/// The positions of `answers` whose read failed, in order.
pub open spec fn failed_interfaces(answers: Seq<Result<ControlInterface, ReadFailure>>) -> Seq<
    IndexedFailure,
>
    decreases answers.len(),
{
    if answers.len() == 0 {
        Seq::empty()
    } else {
        let before = failed_interfaces(answers.drop_last());
        match answers.last() {
            Ok(_) => before,
            Err(f) => before.push(IndexedFailure { index: (answers.len() - 1) as usize, failure: f }),
        }
    }
}

/// `info` is the descriptor that `reads` give when no field read failed.
pub open spec fn describes(info: NodeInfo, reads: NodeReads) -> bool {
    &&& reads.name == Ok::<String, ReadFailure>(info.name)
    &&& reads.global_id == Ok::<String, ReadFailure>(info.global_id)
    &&& reads.local_id == Ok::<u32, ReadFailure>(info.local_id)
    &&& reads.sub_type == Ok::<u128, ReadFailure>(info.sub_type)
    &&& reads.part_type is Ok && info.part_type == part_type_spec(reads.part_type->Ok_0)
    &&& reads.interfaces is Ok
    &&& info.interfaces@ == read_interfaces(reads.interfaces->Ok_0@)
    &&& info.interface_failures@ == failed_interfaces(reads.interfaces->Ok_0@)
}

/// Splits per-index interface answers into those read and those that failed.
pub fn collect_interfaces(answers: &Vec<Result<ControlInterface, ReadFailure>>) -> (r: (
    Vec<ControlInterface>,
    Vec<IndexedFailure>,
))
    ensures
        r.0@ == read_interfaces(answers@),
        r.1@ == failed_interfaces(answers@),
{
    let mut found: Vec<ControlInterface> = Vec::new();
    let mut failed: Vec<IndexedFailure> = Vec::new();
    let mut i: usize = 0;
    while i < answers.len()
        invariant
            i <= answers@.len(),
            found@ == read_interfaces(answers@.subrange(0, i as int)),
            failed@ == failed_interfaces(answers@.subrange(0, i as int)),
        decreases answers@.len() - i,
    {
        let ghost head = answers@.subrange(0, i as int + 1);
        assert(head.drop_last() =~= answers@.subrange(0, i as int));
        match &answers[i] {
            Ok(c) => found.push(c.duplicate()),
            Err(f) => failed.push(IndexedFailure { index: i, failure: *f }),
        }
        i = i + 1;
    }
    assert(answers@.subrange(0, answers@.len() as int) =~= answers@);
    (found, failed)
}

/// Assembles a node's descriptor; fails with the first field read that failed.
/// A failed control-interface read drops only that interface.
pub fn describe(reads: NodeReads) -> (r: Result<NodeInfo, ReadFailure>)
    ensures
        field_failure(reads) is Some ==> r == Err::<NodeInfo, ReadFailure>(field_failure(reads)->0),
        field_failure(reads) is None ==> r is Ok && describes(r->Ok_0, reads),
{
    let NodeReads { name, global_id, local_id, sub_type, part_type, interfaces } = reads;
    let name = match name {
        Ok(v) => v,
        Err(f) => { return Err(f); },
    };
    let global_id = match global_id {
        Ok(v) => v,
        Err(f) => { return Err(f); },
    };
    let local_id = match local_id {
        Ok(v) => v,
        Err(f) => { return Err(f); },
    };
    let sub_type = match sub_type {
        Ok(v) => v,
        Err(f) => { return Err(f); },
    };
    let part_type = match part_type {
        Ok(v) => part_type_from_code(v),
        Err(f) => { return Err(f); },
    };
    let answers = match interfaces {
        Ok(v) => v,
        Err(f) => { return Err(f); },
    };
    let (found, failed) = collect_interfaces(&answers);
    Ok(
        NodeInfo {
            name,
            global_id,
            local_id,
            sub_type,
            part_type,
            interfaces: found,
            interface_failures: failed,
        },
    )
}

} // verus!
