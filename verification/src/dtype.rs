//! The data types that a container can hold and their tags.

use vstd::prelude::*;

verus! {

/// The data types of the container format.
#[allow(non_camel_case_types)]
#[derive(Debug, Clone, Copy, PartialEq, Eq, Structural)]
pub enum Dtype {
    BOOL,
    U8,
    I8,
    I16,
    U16,
    F16,
    BF16,
    I32,
    U32,
    F32,
    F64,
    I64,
    U64,
}

/// The tag under which a data type stands in a header.
pub open spec fn dtype_tag(dtype: Dtype) -> Seq<char> {
    match dtype {
        Dtype::BOOL => "BOOL"@,
        Dtype::U8 => "U8"@,
        Dtype::I8 => "I8"@,
        Dtype::I16 => "I16"@,
        Dtype::U16 => "U16"@,
        Dtype::F16 => "F16"@,
        Dtype::BF16 => "BF16"@,
        Dtype::I32 => "I32"@,
        Dtype::U32 => "U32"@,
        Dtype::F32 => "F32"@,
        Dtype::F64 => "F64"@,
        Dtype::I64 => "I64"@,
        Dtype::U64 => "U64"@,
    }
}

/// Bytes per element of a data type.
pub open spec fn dtype_size(dtype: Dtype) -> usize {
    match dtype {
        Dtype::BOOL | Dtype::U8 | Dtype::I8 => 1,
        Dtype::I16 | Dtype::U16 | Dtype::F16 | Dtype::BF16 => 2,
        Dtype::I32 | Dtype::U32 | Dtype::F32 => 4,
        Dtype::F64 | Dtype::I64 | Dtype::U64 => 8,
    }
}

/// The tag of a data type.
pub fn dtype_str(dtype: &Dtype) -> (r: &'static str)
    ensures
        r@ == dtype_tag(*dtype),
{
    match dtype {
        Dtype::BOOL => "BOOL",
        Dtype::U8 => "U8",
        Dtype::I8 => "I8",
        Dtype::I16 => "I16",
        Dtype::U16 => "U16",
        Dtype::F16 => "F16",
        Dtype::BF16 => "BF16",
        Dtype::I32 => "I32",
        Dtype::U32 => "U32",
        Dtype::F32 => "F32",
        Dtype::F64 => "F64",
        Dtype::I64 => "I64",
        Dtype::U64 => "U64",
    }
}

impl Dtype {
    /// Bytes per element; also the alignment that the type asks for.
    pub fn size(&self) -> (r: usize)
        ensures
            r == dtype_size(*self),
            r == 1 || r == 2 || r == 4 || r == 8,
    {
        match self {
            Dtype::BOOL | Dtype::U8 | Dtype::I8 => 1,
            Dtype::I16 | Dtype::U16 | Dtype::F16 | Dtype::BF16 => 2,
            Dtype::I32 | Dtype::U32 | Dtype::F32 => 4,
            Dtype::F64 | Dtype::I64 | Dtype::U64 => 8,
        }
    }

    /// Alignment and unit size of the type.
    pub fn layout(&self) -> (r: crate::tensors::TensorDataType)
        ensures
            r.alignment == dtype_size(*self),
            r.size == dtype_size(*self),
    {
        let size: usize = self.size();
        crate::tensors::TensorDataType { alignment: size, size }
    }
}

/// Every data type.
fn all_dtypes() -> (r: Vec<Dtype>)
    ensures
        forall|d: Dtype| r@.contains(d),
{
    let r = vec![
        Dtype::BOOL,
        Dtype::U8,
        Dtype::I8,
        Dtype::I16,
        Dtype::U16,
        Dtype::F16,
        Dtype::BF16,
        Dtype::I32,
        Dtype::U32,
        Dtype::F32,
        Dtype::F64,
        Dtype::I64,
        Dtype::U64,
    ];
    proof {
        assert forall|d: Dtype| r@.contains(d) by {
            let k: int = match d {
                Dtype::BOOL => 0,
                Dtype::U8 => 1,
                Dtype::I8 => 2,
                Dtype::I16 => 3,
                Dtype::U16 => 4,
                Dtype::F16 => 5,
                Dtype::BF16 => 6,
                Dtype::I32 => 7,
                Dtype::U32 => 8,
                Dtype::F32 => 9,
                Dtype::F64 => 10,
                Dtype::I64 => 11,
                Dtype::U64 => 12,
            };
            assert(r@[k] == d);
        }
    }
    r
}

/// The data type that a tag names; `None` for a tag of no data type.
pub fn dtype_from_str(tag: &str) -> (r: Option<Dtype>)
    ensures
        match r {
            Some(d) => dtype_tag(d) == tag@,
            None => forall|d: Dtype| dtype_tag(d) != tag@,
        },
{
    let all = all_dtypes();
    let wanted: String = tag.to_owned();
    let mut i: usize = 0;
    while i < all.len()
        invariant
            i <= all@.len(),
            wanted@ == tag@,
            forall|d: Dtype| all@.contains(d),
            forall|j: int| 0 <= j < i ==> dtype_tag(#[trigger] all@[j]) != tag@,
        decreases all@.len() - i,
    {
        let candidate: Dtype = all[i];
        if dtype_str(&candidate).to_owned() == wanted {
            return Some(candidate);
        }
        i = i + 1;
    }
    proof {
        assert forall|d: Dtype| dtype_tag(d) != tag@ by {
            assert(all@.contains(d));
            let j = choose|j: int| 0 <= j < all@.len() && all@[j] == d;
            assert(dtype_tag(all@[j]) != tag@);
        }
    }
    None
}

/// No two data types share a tag, so a tag read back names the type that
/// wrote it.
pub proof fn lemma_tags_are_distinct(a: Dtype, b: Dtype)
    requires
        dtype_tag(a) == dtype_tag(b),
    ensures
        a == b,
{
    reveal_strlit("BOOL");
    reveal_strlit("U8");
    reveal_strlit("I8");
    reveal_strlit("I16");
    reveal_strlit("U16");
    reveal_strlit("F16");
    reveal_strlit("BF16");
    reveal_strlit("I32");
    reveal_strlit("U32");
    reveal_strlit("F32");
    reveal_strlit("F64");
    reveal_strlit("I64");
    reveal_strlit("U64");
    assert("BOOL"@.len() == 4 && "BOOL"@[0] == 'B' && "BOOL"@[1] == 'O');
    assert("U8"@.len() == 2 && "U8"@[0] == 'U' && "U8"@[1] == '8');
    assert("I8"@.len() == 2 && "I8"@[0] == 'I' && "I8"@[1] == '8');
    assert("I16"@.len() == 3 && "I16"@[0] == 'I' && "I16"@[1] == '1');
    assert("U16"@.len() == 3 && "U16"@[0] == 'U' && "U16"@[1] == '1');
    assert("F16"@.len() == 3 && "F16"@[0] == 'F' && "F16"@[1] == '1');
    assert("BF16"@.len() == 4 && "BF16"@[0] == 'B' && "BF16"@[1] == 'F');
    assert("I32"@.len() == 3 && "I32"@[0] == 'I' && "I32"@[1] == '3');
    assert("U32"@.len() == 3 && "U32"@[0] == 'U' && "U32"@[1] == '3');
    assert("F32"@.len() == 3 && "F32"@[0] == 'F' && "F32"@[1] == '3');
    assert("F64"@.len() == 3 && "F64"@[0] == 'F' && "F64"@[1] == '6');
    assert("I64"@.len() == 3 && "I64"@[0] == 'I' && "I64"@[1] == '6');
    assert("U64"@.len() == 3 && "U64"@[0] == 'U' && "U64"@[1] == '6');
}

} // verus!
