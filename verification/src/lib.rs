//! A tensor container engine: a length-prefixed JSON header followed by a
//! contiguous, alignment-padded data region.

pub mod catalog;
pub mod codec;
pub mod container;
pub mod dtype;
pub mod header;
pub mod json;
pub mod layout;
pub mod legacy;
pub mod tensors;
pub mod transform;
pub mod writer;

pub use dtype::{dtype_str, Dtype};
pub use header::{read_header, LoadTensorError, SafetensorsHeader};
pub use layout::{next_multiple_of, TensorPlaner};
pub use legacy::TensorView;
pub use tensors::{load_tensors, TensorDataType, TensorInfo, WhereTheSliceStarts};
