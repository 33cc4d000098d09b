//! Writing a container tensor by tensor: each tensor is planned into the
//! data region and described in the header with the offsets it was given.

use crate::codec::radix_pow;
use crate::container::{
    container_bytes, is_header_for, lemma_written_tensor_reads_back, padded_len,
    serialize_container, HeaderEntry, SerializeError,
};
use crate::dtype::{dtype_str, dtype_tag};
use crate::header::header_of;
use crate::json::{json_encoding, json_members, json_prefix};
use crate::layout::{
    entry_end, entry_start, lemma_entries_in_order, lemma_offsets_are_stable, zeros, TensorPlaner,
};
use crate::tensors::{
    has_name, is_reserved, loaded, loaded_from, placed, tensor_fields, LoadFault, TensorModel,
    WhereTheSliceStarts,
};
use crate::transform::{treatment_alignment, treatment_tag, Dispatch};
use std::borrow::Cow;
use vstd::prelude::*;

verus! {

/// The tensors of a container in the making.
pub struct ContainerWriter<'a> {
    pub planner: TensorPlaner<'a>,
    pub entries: Vec<HeaderEntry>,
}

impl<'a> ContainerWriter<'a> {
    /// Every header entry declares the offsets of the write that was planned
    /// for it.
    pub open spec fn wf(&self) -> bool {
        &&& self.planner.wf()
        &&& self.entries@.len() == self.planner.tensors@.len()
        &&& forall|i: int|
            0 <= i < self.entries@.len() ==> (#[trigger] self.entries@[i]).data_offsets == (
                entry_start(self.planner.tensors@, i) as usize,
                entry_end(self.planner.tensors@, i) as usize,
            )
    }

    /// A writer with no tensors.
    pub fn new() -> (r: Self)
        ensures
            r.wf(),
            r.entries@.len() == 0,
            r.planner.free_offset == 0,
    {
        ContainerWriter { planner: TensorPlaner::new(), entries: Vec::new() }
    }

    /// Adds a tensor: its bytes go to the first multiple of `alignment` at
    /// or after the end of the tensor before it, and the header entry
    /// declares that range. Returns the range, or `None`, with nothing
    /// changed, where the alignment is zero or the range would leave the
    /// machine's range.
    pub fn add(
        &mut self,
        name: String,
        dtype: String,
        shape: Vec<usize>,
        alignment: usize,
        data: Cow<'a, [u8]>,
    ) -> (r: Option<(usize, usize)>)
        requires
            old(self).wf(),
        ensures
            final(self).wf(),
            r is Some <==> old(self).planner.fits(alignment, data@.len()),
            r is None ==> *final(self) == *old(self),
            r matches Some(range) ==> {
                &&& range.0 == crate::layout::round_up(
                    old(self).planner.free_offset as int,
                    alignment as int,
                )
                &&& range.0 % alignment == 0
                &&& range.1 == range.0 + data@.len()
                &&& final(self).planner.free_offset == range.1
                &&& final(self).planner.tensors@.len() == old(self).planner.tensors@.len() + 1
                &&& final(self).planner.tensors@.last().data == data
                &&& final(self).entries@ == old(self).entries@.push(
                    (HeaderEntry { name, dtype, shape, data_offsets: range }),
                )
            },
    {
        let ghost before = self.planner.tensors@;
        match self.planner.try_plan_write(alignment, data) {
            None => None,
            Some(range) => {
                self.entries.push(HeaderEntry { name, dtype, shape, data_offsets: range });
                proof {
                    assert forall|i: int| 0 <= i < self.entries@.len() implies (
                    #[trigger] self.entries@[i]).data_offsets == (
                        entry_start(self.planner.tensors@, i) as usize,
                        entry_end(self.planner.tensors@, i) as usize,
                    ) by {
                        if i < before.len() {
                            lemma_offsets_are_stable(before, self.planner.tensors@.last(), i);
                        }
                    }
                }
                Some(range)
            },
        }
    }

    /// Adds a tensor as a decision of the dispatcher says: a tensor that is
    /// passed through goes under its own type tag and alignment, the
    /// outcome of a transform under the tag and the alignment of its
    /// treatment. `data` is what is written: the tensor's bytes, or what the
    /// transform made of them.
    pub fn add_decided(
        &mut self,
        name: String,
        shape: Vec<usize>,
        decision: Dispatch,
        data: Cow<'a, [u8]>,
    ) -> (r: Option<(usize, usize)>)
        requires
            old(self).wf(),
        ensures
            final(self).wf(),
            r is Some <==> old(self).planner.fits(decision_alignment(decision), data@.len()),
            r is None ==> *final(self) == *old(self),
            r matches Some(range) ==> {
                &&& range.0 == crate::layout::round_up(
                    old(self).planner.free_offset as int,
                    decision_alignment(decision) as int,
                )
                &&& range.1 == range.0 + data@.len()
                &&& final(self).planner.free_offset == range.1
                &&& final(self).planner.tensors@.len() == old(self).planner.tensors@.len() + 1
                &&& final(self).planner.tensors@.last().data == data
                &&& final(self).entries@.len() == old(self).entries@.len() + 1
                &&& final(self).entries@.drop_last() == old(self).entries@
                &&& final(self).entries@.last().name == name
                &&& final(self).entries@.last().dtype@ == decision_tag(decision)
                &&& final(self).entries@.last().shape == shape
                &&& final(self).entries@.last().data_offsets == range
            },
    {
        let ghost before = self.entries@;
        let r = match decision {
            Dispatch::PassThrough { dtype, alignment } => self.add(
                name,
                dtype_str(&dtype).to_owned(),
                shape,
                alignment,
                data,
            ),
            Dispatch::Transform { treatment, n_elem: _, ne_0: _, work_len: _ } => self.add(
                name,
                treatment.tag().to_owned(),
                shape,
                treatment.alignment(),
                data,
            ),
        };
        proof {
            if r is Some {
                assert(self.entries@.drop_last() =~= before);
            }
        }
        r
    }

    /// Writes the container: the header for `metadata` and the entries, then
    /// the data region.
    pub fn finish(&self, metadata: &Option<Vec<(String, String)>>) -> (r: Result<
        Vec<u8>,
        SerializeError,
    >)
        requires
            self.wf(),
        ensures
            exists|h: serde_json::Value| #[trigger]
                is_header_for(h, *metadata, self.entries@) && match json_encoding(h) {
                    None => r == Err::<Vec<u8>, SerializeError>(
                        SerializeError::HeaderNotEncodable,
                    ),
                    Some(json) => if json.len() + 7 <= usize::MAX {
                        r matches Ok(bytes) && bytes@ == container_bytes(
                            json,
                            self.planner.tensors@,
                        )
                    } else {
                        r == Err::<Vec<u8>, SerializeError>(SerializeError::HeaderTooLong)
                    },
                },
    {
        serialize_container(metadata, &self.entries, &self.planner)
    }
}

/// The type tag under which the outcome of a decision is written.
pub open spec fn decision_tag(decision: Dispatch) -> Seq<char> {
    match decision {
        Dispatch::PassThrough { dtype, .. } => dtype_tag(dtype),
        Dispatch::Transform { treatment, .. } => treatment_tag(treatment),
    }
}

/// The alignment at which the outcome of a decision is written.
pub open spec fn decision_alignment(decision: Dispatch) -> usize {
    match decision {
        Dispatch::PassThrough { alignment, .. } => alignment,
        Dispatch::Transform { treatment, .. } => treatment_alignment(treatment),
    }
}

/// In a writer's tensors no two byte ranges overlap: the range that an
/// earlier entry declares ends at or before the start of a later one's.
pub proof fn lemma_declared_ranges_are_disjoint(w: ContainerWriter, i: int, j: int)
    requires
        w.wf(),
        0 <= i < j < w.entries@.len(),
    ensures
        w.entries@[i].data_offsets.0 <= w.entries@[i].data_offsets.1,
        w.entries@[i].data_offsets.1 <= w.entries@[j].data_offsets.0,
{
    lemma_entries_in_order(w.planner.tensors@, i, j);
    crate::layout::lemma_region_holds_entry(w.planner.tensors@, i);
    crate::layout::lemma_region_holds_entry(w.planner.tensors@, j);
}

/// What a writer wrote reads back. In the container that holds the
/// writer's data region behind any header text, the range that entry `i`
/// declares lies within the buffer under the start-of-file convention, and
/// extraction gives the tensor the bytes that were added for it.
pub proof fn lemma_writer_roundtrip(
    w: ContainerWriter,
    json: Seq<u8>,
    i: int,
    done: Seq<TensorModel>,
)
    requires
        w.wf(),
        padded_len(json.len()) < radix_pow(8),
        container_bytes(json, w.planner.tensors@).len() <= usize::MAX,
        0 <= i < w.entries@.len(),
        !has_name(done, w.entries@[i].name@),
    ensures
        placed(
            done,
            w.entries@[i].name@,
            w.entries@[i].fields(),
            (8 + padded_len(json.len())) as usize,
            container_bytes(json, w.planner.tensors@),
        ) == Ok::<Seq<TensorModel>, LoadFault>(
            done.push(
                (TensorModel {
                    name: w.entries@[i].name@,
                    dtype: w.entries@[i].dtype@,
                    shape: w.entries@[i].shape@,
                    data: w.planner.tensors@[i].data@,
                }),
            ),
        ),
{
    lemma_written_tensor_reads_back(
        json,
        w.planner.tensors@,
        i,
        done,
        w.entries@[i].name@,
        w.entries@[i].dtype@,
        w.entries@[i].shape@,
    );
}

/// The tensor that entry `k` of a writer stands for: the entry's name, type
/// tag and shape, and the bytes that were added for it.
pub open spec fn written_model(w: ContainerWriter, k: int) -> TensorModel {
    TensorModel {
        name: w.entries@[k].name@,
        dtype: w.entries@[k].dtype@,
        shape: w.entries@[k].shape@,
        data: w.planner.tensors@[k].data@,
    }
}

/// Whether `members` are header members that describe entries of `w`:
/// member `k` has the name, type tag, shape and offsets of entry
/// `index[k]`, no name is reserved and no two members share a name.
pub open spec fn members_describe(
    members: Seq<(Seq<char>, serde_json::Value)>,
    w: ContainerWriter,
    index: Seq<int>,
) -> bool {
    &&& index.len() == members.len()
    &&& forall|k: int|
        0 <= k < members.len() ==> {
            &&& 0 <= #[trigger] index[k] < w.entries@.len()
            &&& members[k].0 == w.entries@[index[k]].name@
            &&& tensor_fields(members[k].1) == Some(w.entries@[index[k]].fields())
            &&& !is_reserved(members[k].0)
        }
    &&& forall|a: int, b: int|
        0 <= a < b < members.len() ==> (#[trigger] members[a]).0 != (#[trigger] members[b]).0
}

/// A written container reads back. Where the members of the header that is
/// read from the container describe entries of the writer, in whatever
/// order, extraction under the start-of-file convention succeeds and gives
/// each member the name, type tag and shape of its entry and the very bytes
/// that were added for it.
pub proof fn lemma_written_container_loads(
    w: ContainerWriter,
    json: Seq<u8>,
    members: Seq<(Seq<char>, serde_json::Value)>,
    index: Seq<int>,
    i: int,
)
    requires
        w.wf(),
        padded_len(json.len()) < radix_pow(8),
        container_bytes(json, w.planner.tensors@).len() <= usize::MAX,
        members_describe(members, w, index),
        0 <= i <= members.len(),
    ensures
        loaded_from(
            members,
            i,
            Seq::new(i as nat, |k: int| written_model(w, index[k])),
            (8 + padded_len(json.len())) as usize,
            container_bytes(json, w.planner.tensors@),
        ) == Ok::<Seq<TensorModel>, LoadFault>(
            Seq::new(members.len(), |k: int| written_model(w, index[k])),
        ),
    decreases members.len() - i,
{
    let done = Seq::new(i as nat, |k: int| written_model(w, index[k]));
    if i == members.len() {
        assert(done =~= Seq::new(members.len(), |k: int| written_model(w, index[k])));
    } else {
        let e = index[i];
        assert(!has_name(done, members[i].0)) by {
            if has_name(done, members[i].0) {
                let k = choose|k: int| 0 <= k < done.len() && (#[trigger] done[k]).name == members[i].0;
                assert(members[k].0 == done[k].name);
            }
        }
        lemma_writer_roundtrip(w, json, e, done);
        let next = Seq::new((i + 1) as nat, |k: int| written_model(w, index[k]));
        assert(done.push(written_model(w, e)) =~= next);
        lemma_written_container_loads(w, json, members, index, i + 1);
    }
}

/// The round trip of a whole container. Let the container hold a writer's
/// data region behind the header text `json`, and let the JSON value that
/// the padded text begins with be an object whose members describe entries
/// of the writer. Then reading the header gives that value and the offset
/// at which the data region begins, and extraction from the whole container
/// gives every member the bytes that were added for its entry.
pub proof fn lemma_container_roundtrip(
    w: ContainerWriter,
    json: Seq<u8>,
    read_back: serde_json::Value,
    members: Seq<(Seq<char>, serde_json::Value)>,
    index: Seq<int>,
)
    requires
        w.wf(),
        padded_len(json.len()) < radix_pow(8),
        container_bytes(json, w.planner.tensors@).len() <= usize::MAX,
        json_prefix(json + zeros((padded_len(json.len()) - json.len()) as nat)) == Some(
            read_back,
        ),
        json_members(read_back) == Some(members),
        members_describe(members, w, index),
    ensures
        header_of(container_bytes(json, w.planner.tensors@)) == Some(
            (read_back, (8 + padded_len(json.len())) as nat),
        ),
        loaded(
            read_back,
            (8 + padded_len(json.len())) as usize,
            container_bytes(json, w.planner.tensors@),
            WhereTheSliceStarts::StartOfFile,
        ) == Ok::<Seq<TensorModel>, LoadFault>(
            Seq::new(members.len(), |k: int| written_model(w, index[k])),
        ),
{
    crate::container::lemma_container_layout(json, w.planner.tensors@);
    lemma_written_container_loads(w, json, members, index, 0);
    assert(Seq::new(0nat, |k: int| written_model(w, index[k])) =~= Seq::<TensorModel>::empty());
}

} // verus!
