//! The transform dispatcher: what is to be done to one tensor under a plan.
//! The dispatcher validates and decides; the numeric work is the caller's.

use crate::catalog::{copy_shape, Catalog, QuantizeTreatment};
use crate::dtype::{dtype_size, dtype_str, dtype_tag, Dtype};
use vstd::prelude::*;
use vstd::slice::{slice_subrange, slice_to_vec};

verus! {

/// Largest element count and run length that a transform accepts.
pub const MAX_TRANSFORM_COUNT: usize = 2147483647;

/// Why a tensor cannot be handed to a transform.
#[derive(Debug, Clone, Copy, PartialEq, Eq, Structural)]
pub enum TransformFault {
    /// only F32 tensors can be quantized
    SourceNotF32,
    /// the byte count is no whole number of elements
    PartialElement,
    /// tensor has no dim that != 1
    NoBlockingDim,
    /// the element count or the run length is beyond what a transform takes
    CountOutOfRange,
}

/// Why a tensor cannot be converted.
#[derive(Debug)]
pub enum ConvertError {
    /// treatment of the tensor's shape class is not described in the plan
    PlanLookupMiss { dtype: String, shape: Vec<usize> },
    UnsupportedTransformInput(TransformFault),
}

/// What to do with one tensor.
#[derive(Debug, Clone, Copy, PartialEq, Eq, Structural)]
pub enum Dispatch {
    /// Pass the bytes through under the tensor's own type and alignment.
    PassThrough { dtype: Dtype, alignment: usize },
    /// Hand the bytes to the transform of `treatment`, with the number of
    /// elements, the length of a contiguous run and the size of the buffer
    /// that the transform writes into.
    Transform { treatment: QuantizeTreatment, n_elem: usize, ne_0: usize, work_len: usize },
}

/// Whether `i` is the first dimension of `shape` that is not 1.
pub open spec fn is_blocking_index(shape: Seq<usize>, i: int) -> bool {
    &&& 0 <= i < shape.len()
    &&& shape[i] != 1
    &&& forall|k: int| 0 <= k < i ==> shape[k] == 1
}

/// The tag of what a treatment yields; `keep` has none of its own.
pub open spec fn treatment_tag(treatment: QuantizeTreatment) -> Seq<char> {
    match treatment {
        QuantizeTreatment::keep => "keep"@,
        QuantizeTreatment::q4_0 => "q4_0"@,
        QuantizeTreatment::q4_1 => "q4_1"@,
        QuantizeTreatment::q5_0 => "q5_0"@,
        QuantizeTreatment::q5_1 => "q5_1"@,
        QuantizeTreatment::q8_0 => "q8_0"@,
    }
}

/// The alignment of what a treatment yields: 4 where blocks hold 32-bit
/// scales, 2 where they hold 16-bit ones.
pub open spec fn treatment_alignment(treatment: QuantizeTreatment) -> usize {
    match treatment {
        QuantizeTreatment::keep => 1,
        QuantizeTreatment::q4_0 | QuantizeTreatment::q4_1 | QuantizeTreatment::q8_0 => 4,
        QuantizeTreatment::q5_0 | QuantizeTreatment::q5_1 => 2,
    }
}

impl QuantizeTreatment {
    /// The name of the treatment, which is also the tag of what it yields.
    pub fn tag(&self) -> (r: &'static str)
        ensures
            r@ == treatment_tag(*self),
    {
        match self {
            QuantizeTreatment::keep => "keep",
            QuantizeTreatment::q4_0 => "q4_0",
            QuantizeTreatment::q4_1 => "q4_1",
            QuantizeTreatment::q5_0 => "q5_0",
            QuantizeTreatment::q5_1 => "q5_1",
            QuantizeTreatment::q8_0 => "q8_0",
        }
    }

    /// The alignment of what the treatment yields.
    pub fn alignment(&self) -> (r: usize)
        ensures
            r == treatment_alignment(*self),
            r > 0,
    {
        match self {
            QuantizeTreatment::keep => 1,
            QuantizeTreatment::q4_0 | QuantizeTreatment::q4_1 | QuantizeTreatment::q8_0 => 4,
            QuantizeTreatment::q5_0 | QuantizeTreatment::q5_1 => 2,
        }
    }
}

/// The first dimension of `shape` that is not 1.
pub fn blocking_dim(shape: &Vec<usize>) -> (r: Option<usize>)
    ensures
        match r {
            Some(d) => exists|i: int| is_blocking_index(shape@, i) && shape@[i] == d,
            None => forall|k: int| 0 <= k < shape@.len() ==> shape@[k] == 1,
        },
{
    let mut i: usize = 0;
    while i < shape.len()
        invariant
            i <= shape@.len(),
            forall|k: int| 0 <= k < i ==> shape@[k] == 1,
        decreases shape@.len() - i,
    {
        if shape[i] != 1 {
            assert(is_blocking_index(shape@, i as int));
            return Some(shape[i]);
        }
        i = i + 1;
    }
    None
}

/// Whether `r` is the decision for a tensor of type `dtype` and shape
/// `shape` with `len` bytes under `treatment`. The cases exclude each
/// other, so the decision is unique.
pub open spec fn decided(
    r: Result<Dispatch, TransformFault>,
    dtype: Dtype,
    shape: Seq<usize>,
    len: usize,
    treatment: QuantizeTreatment,
) -> bool {
    match r {
        Ok(Dispatch::PassThrough { dtype: d, alignment }) => {
            &&& treatment == QuantizeTreatment::keep
            &&& d == dtype
            &&& alignment == dtype_size(dtype)
        },
        Ok(Dispatch::Transform { treatment: t, n_elem, ne_0, work_len }) => {
            &&& treatment != QuantizeTreatment::keep
            &&& t == treatment
            &&& dtype == Dtype::F32
            &&& len % 4 == 0
            &&& n_elem == len / 4
            &&& work_len == len
            &&& exists|i: int| is_blocking_index(shape, i) && shape[i] == ne_0
            &&& n_elem <= MAX_TRANSFORM_COUNT
            &&& ne_0 <= MAX_TRANSFORM_COUNT
        },
        Err(TransformFault::SourceNotF32) => {
            &&& treatment != QuantizeTreatment::keep
            &&& dtype != Dtype::F32
        },
        Err(TransformFault::PartialElement) => {
            &&& treatment != QuantizeTreatment::keep
            &&& dtype == Dtype::F32
            &&& len % 4 != 0
        },
        Err(TransformFault::NoBlockingDim) => {
            &&& treatment != QuantizeTreatment::keep
            &&& dtype == Dtype::F32
            &&& len % 4 == 0
            &&& forall|k: int| 0 <= k < shape.len() ==> shape[k] == 1
        },
        Err(TransformFault::CountOutOfRange) => {
            &&& treatment != QuantizeTreatment::keep
            &&& dtype == Dtype::F32
            &&& len % 4 == 0
            &&& exists|i: int|
                is_blocking_index(shape, i) && (len / 4 > MAX_TRANSFORM_COUNT || shape[i]
                    > MAX_TRANSFORM_COUNT)
        },
    }
}

/// Decides what is done to a tensor of type `dtype` and shape `shape` that
/// holds `len` bytes, under `treatment`. `keep` passes any tensor through.
/// Every other treatment takes F32 tensors of whole elements with a
/// dimension that is not 1, and faults are reported in that order.
pub fn dispatch(dtype: Dtype, shape: &Vec<usize>, len: usize, treatment: QuantizeTreatment) -> (r:
    Result<Dispatch, TransformFault>)
    ensures
        decided(r, dtype, shape@, len, treatment),
{
    if treatment == QuantizeTreatment::keep {
        return Ok(Dispatch::PassThrough { dtype, alignment: dtype.size() });
    }
    if dtype != Dtype::F32 {
        return Err(TransformFault::SourceNotF32);
    }
    let unit: usize = dtype.size();
    let n_elem: usize = len / unit;
    if len % unit != 0 {
        return Err(TransformFault::PartialElement);
    }
    let ne_0: usize = match blocking_dim(shape) {
        None => {
            return Err(TransformFault::NoBlockingDim);
        },
        Some(d) => d,
    };
    if n_elem > MAX_TRANSFORM_COUNT || ne_0 > MAX_TRANSFORM_COUNT {
        return Err(TransformFault::CountOutOfRange);
    }
    Ok(Dispatch::Transform { treatment, n_elem, ne_0, work_len: n_elem * 4 })
}

/// Looks up the treatment of the tensor's shape class in the plan's
/// catalog and decides what is done to the tensor. A class that the
/// catalog does not describe is an error: there is no default.
pub fn dispatch_under_plan(catalog: &Catalog, dtype: Dtype, shape: &Vec<usize>, len: usize) -> (r:
    Result<Dispatch, ConvertError>)
    requires
        catalog.wf(),
    ensures
        !catalog.describes((dtype_tag(dtype), shape@)) ==> (r matches Err(
            ConvertError::PlanLookupMiss { dtype: d, shape: s },
        ) && d@ == dtype_tag(dtype) && s@ == shape@),
        catalog.describes((dtype_tag(dtype), shape@)) ==> exists|j: int|
            0 <= j < catalog.keys@.len() && (#[trigger] catalog.keys@[j])@ == (
                dtype_tag(dtype),
                shape@,
            ) && dispatched(r, dtype, shape@, len, catalog.infos@[j].treatment),
{
    let tag: String = dtype_str(&dtype).to_owned();
    match catalog.find(&tag, shape) {
        None => Err(ConvertError::PlanLookupMiss { dtype: tag, shape: copy_shape(shape) }),
        Some(j) => {
            let treatment: QuantizeTreatment = catalog.infos[j].treatment;
            let r = match dispatch(dtype, shape, len, treatment) {
                Ok(d) => Ok(d),
                Err(fault) => Err(ConvertError::UnsupportedTransformInput(fault)),
            };
            assert(catalog.keys@[j as int]@ == (dtype_tag(dtype), shape@));
            r
        },
    }
}

/// Whether `r` is what `dispatch_under_plan` yields for a tensor whose
/// shape class the plan gives `treatment`.
pub open spec fn dispatched(
    r: Result<Dispatch, ConvertError>,
    dtype: Dtype,
    shape: Seq<usize>,
    len: usize,
    treatment: QuantizeTreatment,
) -> bool {
    match r {
        Ok(d) => decided(Ok(d), dtype, shape, len, treatment),
        Err(ConvertError::UnsupportedTransformInput(fault)) => decided(
            Err(fault),
            dtype,
            shape,
            len,
            treatment,
        ),
        Err(ConvertError::PlanLookupMiss { .. }) => false,
    }
}

/// The bytes that a transform produced: the first `produced` bytes of its
/// work buffer.
pub fn transformed_bytes(work: &[u8], produced: usize) -> (r: Vec<u8>)
    requires
        produced <= work@.len(),
    ensures
        r@ == work@.take(produced as int),
{
    slice_to_vec(slice_subrange(work, 0, produced))
}

} // verus!
