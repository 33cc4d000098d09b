//! Offset arithmetic and the write planner: where each tensor's bytes land in
//! the data region of a container.

use std::borrow::Cow;
use vstd::prelude::*;

verus! {

/// The smallest multiple of `multiple` that is not below `n`.
pub open spec fn round_up(n: int, multiple: int) -> int
    recommends
        n >= 0,
        multiple > 0,
{
    if n % multiple == 0 {
        n
    } else {
        n + (multiple - n % multiple)
    }
}

/// Whether `k` is a whole number of steps of `multiple`.
pub open spec fn is_multiple(k: int, multiple: int) -> bool {
    k % multiple == 0
}

/// `round_up` is a multiple, is not below its argument, stays within one
/// step of it, and no smaller multiple would do.
pub proof fn lemma_round_up_is_least(n: int, multiple: int)
    requires
        n >= 0,
        multiple > 0,
    ensures
        round_up(n, multiple) % multiple == 0,
        n <= round_up(n, multiple) < n + multiple,
        forall|k: int| k >= n && #[trigger] is_multiple(k, multiple) ==> k >= round_up(n, multiple),
{
    let r = round_up(n, multiple);
    assert(r % multiple == 0 && n <= r < n + multiple) by (nonlinear_arith)
        requires
            n >= 0,
            multiple > 0,
            r == if n % multiple == 0 {
                n
            } else {
                n + (multiple - n % multiple)
            },
    ;
    assert forall|k: int| k >= n && #[trigger] is_multiple(k, multiple) implies k >= r by {
        assert(k >= r) by (nonlinear_arith)
            requires
                k >= n,
                n >= 0,
                multiple > 0,
                k % multiple == 0,
                r % multiple == 0,
                n <= r < n + multiple,
        ;
    }
}

/// Rounds `lhs` up to the next multiple of `multiple`.
pub fn next_multiple_of(lhs: usize, multiple: usize) -> (r: usize)
    requires
        multiple > 0,
        round_up(lhs as int, multiple as int) <= usize::MAX,
    ensures
        r == round_up(lhs as int, multiple as int),
        r % multiple == 0,
        lhs <= r < lhs + multiple,
        forall|k: int| k >= lhs && #[trigger] is_multiple(k, multiple as int) ==> k >= r,
{
    proof {
        lemma_round_up_is_least(lhs as int, multiple as int);
    }
    let rem: usize = lhs % multiple;
    if rem == 0 {
        lhs
    } else {
        lhs + (multiple - rem)
    }
}

/// One planned write: zero bytes of padding, then the tensor's bytes.
pub struct TensorPlanerTensor<'a> {
    pub leading_padding: usize,
    pub data: Cow<'a, [u8]>,
}

/// The bytes behind planned data, borrowed or owned.
pub fn bytes_of<'b, 'a>(data: &'b Cow<'a, [u8]>) -> (r: &'b [u8])
    ensures
        r@ == data@,
{
    match data {
        Cow::Borrowed(borrowed) => *borrowed,
        Cow::Owned(owned) => owned.as_slice(),
    }
}

/// `count` zero bytes.
pub open spec fn zeros(count: nat) -> Seq<u8> {
    Seq::new(count, |i: int| 0u8)
}

/// Length of the data region that the planned writes fill.
pub open spec fn region_len(entries: Seq<TensorPlanerTensor>) -> nat
    decreases entries.len(),
{
    if entries.len() == 0 {
        0
    } else {
        region_len(entries.drop_last()) + entries.last().leading_padding as nat
            + entries.last().data@.len()
    }
}

/// The bytes of the data region: each write's padding, then its data, in
/// the order of submission.
pub open spec fn region_bytes(entries: Seq<TensorPlanerTensor>) -> Seq<u8>
    decreases entries.len(),
{
    if entries.len() == 0 {
        Seq::empty()
    } else {
        region_bytes(entries.drop_last()) + zeros(entries.last().leading_padding as nat)
            + entries.last().data@
    }
}

/// Offset in the data region at which the data of write `i` begins.
pub open spec fn entry_start(entries: Seq<TensorPlanerTensor>, i: int) -> nat
    recommends
        0 <= i < entries.len(),
{
    region_len(entries.take(i)) + entries[i].leading_padding as nat
}

/// Offset in the data region just past the data of write `i`.
pub open spec fn entry_end(entries: Seq<TensorPlanerTensor>, i: int) -> nat
    recommends
        0 <= i < entries.len(),
{
    entry_start(entries, i) + entries[i].data@.len()
}

/// The write planner: the first free byte of the data region and the writes
/// planned so far.
pub struct TensorPlaner<'a> {
    pub free_offset: usize,
    pub tensors: Vec<TensorPlanerTensor<'a>>,
}

impl<'a> TensorPlaner<'a> {
    /// The first free byte is the end of the last planned write.
    pub open spec fn wf(&self) -> bool {
        self.free_offset as nat == region_len(self.tensors@)
    }

    /// Whether a write of `len` bytes at `alignment` keeps every offset
    /// within the machine's range.
    pub open spec fn fits(&self, alignment: usize, len: nat) -> bool {
        alignment > 0 && round_up(self.free_offset as int, alignment as int) + len <= usize::MAX
    }

    /// A planner with nothing planned.
    pub fn new() -> (r: Self)
        ensures
            r.wf(),
            r.free_offset == 0,
            r.tensors@.len() == 0,
    {
        TensorPlaner { free_offset: 0, tensors: Vec::new() }
    }

    /// Plans the next write where it fits, and leaves the planner as it is
    /// where the alignment is zero or an offset would leave the machine's
    /// range.
    pub fn try_plan_write(&mut self, alignment: usize, data: Cow<'a, [u8]>) -> (r: Option<(usize, usize)>)
        requires
            old(self).wf(),
        ensures
            final(self).wf(),
            r is Some <==> old(self).fits(alignment, data@.len()),
            r is None ==> *final(self) == *old(self),
            r matches Some(range) ==> {
                &&& range.0 == round_up(old(self).free_offset as int, alignment as int)
                &&& range.0 % alignment == 0
                &&& range.0 >= old(self).free_offset
                &&& range.1 == range.0 + data@.len()
                &&& final(self).free_offset == range.1
                &&& final(self).tensors@ == old(self).tensors@.push(
                    (TensorPlanerTensor {
                        leading_padding: (range.0 - old(self).free_offset) as usize,
                        data: data,
                    }),
                )
                &&& range.0 == entry_start(final(self).tensors@, old(self).tensors@.len() as int)
                &&& range.1 == entry_end(final(self).tensors@, old(self).tensors@.len() as int)
            },
    {
        if alignment == 0 {
            return None;
        }
        let rem: usize = self.free_offset % alignment;
        let padding: usize = if rem == 0 {
            0
        } else {
            alignment - rem
        };
        if padding > usize::MAX - self.free_offset {
            return None;
        }
        if bytes_of(&data).len() > usize::MAX - self.free_offset - padding {
            return None;
        }
        Some(self.plan_write(alignment, data))
    }

    /// Plans the next write: `data` goes to the first multiple of
    /// `alignment` at or after the first free byte. Returns where it starts
    /// and ends in the data region.
    pub fn plan_write(&mut self, alignment: usize, data: Cow<'a, [u8]>) -> (r: (usize, usize))
        requires
            old(self).wf(),
            old(self).fits(alignment, data@.len()),
        ensures
            final(self).wf(),
            r.0 == round_up(old(self).free_offset as int, alignment as int),
            r.0 % alignment == 0,
            r.0 >= old(self).free_offset,
            r.1 == r.0 + data@.len(),
            final(self).free_offset == r.1,
            final(self).tensors@ == old(self).tensors@.push(
                (TensorPlanerTensor {
                    leading_padding: (r.0 - old(self).free_offset) as usize,
                    data: data,
                }),
            ),
            r.0 == entry_start(final(self).tensors@, old(self).tensors@.len() as int),
            r.1 == entry_end(final(self).tensors@, old(self).tensors@.len() as int),
    {
        let start: usize = next_multiple_of(self.free_offset, alignment);
        let padding: usize = start - self.free_offset;
        let end: usize = start + bytes_of(&data).len();
        let ghost before = self.tensors@;
        self.tensors.push(TensorPlanerTensor { leading_padding: padding, data });
        self.free_offset = end;
        proof {
            assert(self.tensors@.drop_last() =~= before);
            assert(self.tensors@.take(before.len() as int) =~= before);
        }
        (start, end)
    }
}

/// The data region is as long as `region_len` says.
pub proof fn lemma_region_bytes_len(entries: Seq<TensorPlanerTensor>)
    ensures
        region_bytes(entries).len() == region_len(entries),
    decreases entries.len(),
{
    if entries.len() > 0 {
        lemma_region_bytes_len(entries.drop_last());
    }
}

/// The region of the first `i` writes is the beginning of the whole region.
pub proof fn lemma_region_prefix(entries: Seq<TensorPlanerTensor>, i: int)
    requires
        0 <= i <= entries.len(),
    ensures
        region_len(entries.take(i)) <= region_len(entries),
        region_bytes(entries).subrange(0, region_len(entries.take(i)) as int) == region_bytes(
            entries.take(i),
        ),
    decreases entries.len(),
{
    lemma_region_bytes_len(entries);
    if i == entries.len() {
        assert(entries.take(i) =~= entries);
        assert(region_bytes(entries).subrange(0, region_len(entries) as int) =~= region_bytes(
            entries,
        ));
    } else {
        let front = entries.drop_last();
        lemma_region_prefix(front, i);
        lemma_region_bytes_len(front);
        assert(front.take(i) =~= entries.take(i));
        assert(region_bytes(entries).subrange(0, region_len(entries.take(i)) as int)
            =~= region_bytes(front).subrange(0, region_len(entries.take(i)) as int));
    }
}

/// The bytes of write `i` stand in the data region between its start and
/// its end.
pub proof fn lemma_region_holds_entry(entries: Seq<TensorPlanerTensor>, i: int)
    requires
        0 <= i < entries.len(),
    ensures
        entry_start(entries, i) <= entry_end(entries, i) <= region_len(entries),
        entry_end(entries, i) == region_len(entries.take(i + 1)),
        region_bytes(entries).subrange(
            entry_start(entries, i) as int,
            entry_end(entries, i) as int,
        ) == entries[i].data@,
{
    let upto = entries.take(i + 1);
    lemma_region_prefix(entries, i + 1);
    lemma_region_bytes_len(entries);
    lemma_region_bytes_len(upto);
    lemma_region_bytes_len(entries.take(i));
    assert(upto.drop_last() =~= entries.take(i));
    assert(upto.last() == entries[i]);
    assert(region_bytes(upto).subrange(
        entry_start(entries, i) as int,
        entry_end(entries, i) as int,
    ) =~= entries[i].data@);
    assert(region_bytes(entries).subrange(
        entry_start(entries, i) as int,
        entry_end(entries, i) as int,
    ) =~= region_bytes(upto).subrange(
        entry_start(entries, i) as int,
        entry_end(entries, i) as int,
    ));
}

/// Writes do not overlap: each ends before the next begins, in the order
/// of submission.
pub proof fn lemma_entries_in_order(entries: Seq<TensorPlanerTensor>, i: int, j: int)
    requires
        0 <= i < j < entries.len(),
    ensures
        entry_end(entries, i) <= entry_start(entries, j),
{
    lemma_region_holds_entry(entries, i);
    let upto = entries.take(j);
    lemma_region_prefix(upto, i + 1);
    assert(upto.take(i + 1) =~= entries.take(i + 1));
}

/// A later write moves no earlier one.
pub proof fn lemma_offsets_are_stable(
    entries: Seq<TensorPlanerTensor>,
    added: TensorPlanerTensor,
    i: int,
)
    requires
        0 <= i < entries.len(),
    ensures
        entry_start(entries.push(added), i) == entry_start(entries, i),
        entry_end(entries.push(added), i) == entry_end(entries, i),
{
    assert(entries.push(added).take(i) =~= entries.take(i));
}

} // verus!
