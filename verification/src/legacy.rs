//! Tensors of a legacy archive: records that point into a mapped buffer,
//! turned into views that a container can be written from.

use crate::dtype::{dtype_size, Dtype};
use vstd::prelude::*;
use vstd::slice::slice_subrange;

verus! {

/// A view of a tensor within a buffer: a readable view of a single tensor
/// that refers to bytes of the buffer.
#[derive(Debug)]
pub struct TensorView<'data> {
    pub dtype: Dtype,
    pub shape: Vec<usize>,
    pub data: &'data [u8],
}

impl<'data> TensorView<'data> {
    /// The data type of the tensor.
    pub fn dtype(&self) -> (r: Dtype)
        ensures
            r == self.dtype,
    {
        self.dtype
    }

    /// The shape of the tensor.
    pub fn shape(&self) -> (r: &[usize])
        ensures
            r@ == self.shape@,
    {
        self.shape.as_slice()
    }

    /// The bytes of the tensor.
    pub fn data(&self) -> (r: &'data [u8])
        ensures
            r@ == self.data@,
    {
        self.data
    }

    /// The number of bytes of the tensor.
    pub fn data_len(&self) -> (r: usize)
        ensures
            r == self.data@.len(),
    {
        self.data.len()
    }
}

/// The element types of a legacy archive.
#[derive(Debug)]
pub enum LegacyTensorType {
    Float64,
    Float32,
    Float16,
    BFloat16,
    Int64,
    Int32,
    Int16,
    Int8,
    UInt8,
    Unknown(String),
}

/// One record of a legacy archive.
#[derive(Debug)]
pub struct LegacyTensor {
    pub name: String,
    pub tensor_type: LegacyTensorType,
    pub shape: Vec<usize>,
    /// where the tensor's bytes begin in the archive
    pub absolute_offset: u64,
}

/// Why a legacy record gives no view.
#[derive(Debug)]
pub enum LegacyError {
    /// unknown tensor datatype
    UnknownDatatype(String),
    /// the record's bytes do not lie within the buffer
    OutOfBounds,
}

/// The data type that a legacy element type maps to.
pub open spec fn legacy_dtype_of(t: LegacyTensorType) -> Option<Dtype> {
    match t {
        LegacyTensorType::Float64 => Some(Dtype::F64),
        LegacyTensorType::Float32 => Some(Dtype::F32),
        LegacyTensorType::Float16 => Some(Dtype::F16),
        LegacyTensorType::BFloat16 => Some(Dtype::BF16),
        LegacyTensorType::Int64 => Some(Dtype::I64),
        LegacyTensorType::Int32 => Some(Dtype::I32),
        LegacyTensorType::Int16 => Some(Dtype::I16),
        LegacyTensorType::Int8 => Some(Dtype::I8),
        LegacyTensorType::UInt8 => Some(Dtype::U8),
        LegacyTensorType::Unknown(_) => None,
    }
}

/// The number of elements of a shape.
pub open spec fn element_count(shape: Seq<usize>) -> nat
    decreases shape.len(),
{
    if shape.len() == 0 {
        1
    } else {
        element_count(shape.drop_last()) * shape.last() as nat
    }
}

/// Maps a legacy element type to its data type. An unknown element type is
/// an error that carries the type's name.
pub fn legacy_dtype(t: &LegacyTensorType) -> (r: Result<Dtype, LegacyError>)
    ensures
        match legacy_dtype_of(*t) {
            Some(dtype) => r matches Ok(d) && d == dtype,
            None => r matches Err(LegacyError::UnknownDatatype(tag)) && *t
                == LegacyTensorType::Unknown(tag),
        },
{
    match t {
        LegacyTensorType::Float64 => Ok(Dtype::F64),
        LegacyTensorType::Float32 => Ok(Dtype::F32),
        LegacyTensorType::Float16 => Ok(Dtype::F16),
        LegacyTensorType::BFloat16 => Ok(Dtype::BF16),
        LegacyTensorType::Int64 => Ok(Dtype::I64),
        LegacyTensorType::Int32 => Ok(Dtype::I32),
        LegacyTensorType::Int16 => Ok(Dtype::I16),
        LegacyTensorType::Int8 => Ok(Dtype::I8),
        LegacyTensorType::UInt8 => Ok(Dtype::U8),
        LegacyTensorType::Unknown(tag) => Err(LegacyError::UnknownDatatype(tag.clone())),
    }
}

/// A shape with a zero dimension has no elements.
pub proof fn lemma_zero_dimension(shape: Seq<usize>, k: int)
    requires
        0 <= k < shape.len(),
        shape[k] == 0,
    ensures
        element_count(shape) == 0,
    decreases shape.len(),
{
    if k < shape.len() - 1 {
        lemma_zero_dimension(shape.drop_last(), k);
        assert(element_count(shape) == 0) by (nonlinear_arith)
            requires
                element_count(shape) == element_count(shape.drop_last()) * shape.last() as nat,
                element_count(shape.drop_last()) == 0,
        ;
    } else {
        assert(element_count(shape) == 0) by (nonlinear_arith)
            requires
                element_count(shape) == element_count(shape.drop_last()) * shape.last() as nat,
                shape.last() == 0,
        ;
    }
}

/// Without a zero dimension, a shape has at least as many elements as any
/// of its beginnings.
pub proof fn lemma_count_grows(shape: Seq<usize>, n: int)
    requires
        0 <= n <= shape.len(),
        forall|k: int| 0 <= k < shape.len() ==> shape[k] != 0,
    ensures
        element_count(shape.take(n)) <= element_count(shape),
    decreases shape.len() - n,
{
    if n == shape.len() {
        assert(shape.take(n) =~= shape);
    } else {
        lemma_count_grows(shape, n + 1);
        let longer = shape.take(n + 1);
        assert(longer.drop_last() =~= shape.take(n));
        assert(longer.last() == shape[n]);
        assert(element_count(shape.take(n)) <= element_count(longer)) by (nonlinear_arith)
            requires
                element_count(longer) == element_count(shape.take(n)) * shape[n] as nat,
                shape[n] >= 1,
        ;
    }
}

/// The number of bytes that `shape` takes at `unit` bytes per element, where
/// that number is at most `limit`.
pub fn byte_len_within(shape: &Vec<usize>, unit: usize, limit: usize) -> (r: Option<usize>)
    ensures
        match r {
            Some(len) => len == element_count(shape@) * unit && len <= limit,
            None => element_count(shape@) * unit > limit,
        },
{
    if unit == 0 {
        assert(element_count(shape@) * unit == 0) by (nonlinear_arith)
            requires
                unit == 0,
        ;
        return Some(0);
    }
    let mut k: usize = 0;
    while k < shape.len()
        invariant
            k <= shape@.len(),
            forall|j: int| 0 <= j < k ==> shape@[j] != 0,
        decreases shape@.len() - k,
    {
        if shape[k] == 0 {
            proof {
                lemma_zero_dimension(shape@, k as int);
                assert(element_count(shape@) * unit == 0) by (nonlinear_arith)
                    requires
                        element_count(shape@) == 0,
                ;
            }
            return Some(0);
        }
        k = k + 1;
    }
    let mut count: usize = 1;
    let mut i: usize = 0;
    assert(shape@.take(0) =~= Seq::<usize>::empty());
    while i < shape.len()
        invariant
            i <= shape@.len(),
            unit > 0,
            forall|j: int| 0 <= j < shape@.len() ==> shape@[j] != 0,
            count == element_count(shape@.take(i as int)),
        decreases shape@.len() - i,
    {
        let ghost longer = shape@.take(i + 1);
        proof {
            assert(longer.drop_last() =~= shape@.take(i as int));
            assert(longer.last() == shape@[i as int]);
            lemma_count_grows(shape@, i + 1);
        }
        match count.checked_mul(shape[i]) {
            Some(next) => {
                count = next;
            },
            None => {
                assert(element_count(shape@) * unit > limit) by (nonlinear_arith)
                    requires
                        element_count(shape@) >= element_count(longer),
                        element_count(longer) > limit,
                        unit >= 1,
                ;
                return None;
            },
        }
        i = i + 1;
    }
    assert(shape@.take(shape@.len() as int) =~= shape@);
    match count.checked_mul(unit) {
        Some(len) if len <= limit => Some(len),
        _ => None,
    }
}

/// The view that a legacy record describes: its type mapped to a data
/// type, and the bytes of the buffer from the record's offset on, as many
/// as its shape takes. An unknown element type is reported first.
pub fn legacy_view<'a>(tensor: &LegacyTensor, buffer: &'a [u8]) -> (r: Result<
    TensorView<'a>,
    LegacyError,
>)
    ensures
        match legacy_dtype_of(tensor.tensor_type) {
            None => r matches Err(LegacyError::UnknownDatatype(tag)) && tensor.tensor_type
                == LegacyTensorType::Unknown(tag),
            Some(dtype) => {
                let len = element_count(tensor.shape@) * dtype_size(dtype);
                if tensor.absolute_offset + len <= buffer@.len() {
                    &&& r matches Ok(view)
                    &&& view.dtype == dtype
                    &&& view.shape@ == tensor.shape@
                    &&& view.data@ == buffer@.subrange(
                        tensor.absolute_offset as int,
                        tensor.absolute_offset + len,
                    )
                } else {
                    r matches Err(LegacyError::OutOfBounds)
                }
            },
        },
{
    let dtype: Dtype = match legacy_dtype(&tensor.tensor_type) {
        Ok(d) => d,
        Err(e) => {
            return Err(e);
        },
    };
    if tensor.absolute_offset > buffer.len() as u64 {
        return Err(LegacyError::OutOfBounds);
    }
    let start: usize = tensor.absolute_offset as usize;
    match byte_len_within(&tensor.shape, dtype.size(), buffer.len() - start) {
        None => Err(LegacyError::OutOfBounds),
        Some(len) => Ok(
            TensorView {
                dtype,
                shape: crate::catalog::copy_shape(&tensor.shape),
                data: slice_subrange(buffer, start, start + len),
            },
        ),
    }
}

} // verus!
