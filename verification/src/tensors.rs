//! The tensor view extractor: from a parsed header and a buffer to the
//! named, typed, shaped byte views that the header describes.

use crate::header::{LoadTensorError, SafetensorsHeader};
use crate::json::{
    json_field, json_members, json_string, json_usize_list, json_usize_pair, object_field,
    object_members, read_string, read_usize_list, read_usize_pair,
};
use vstd::prelude::*;
use vstd::slice::slice_subrange;
use vstd::string::{StrSliceExecFns, StringExecFns};

verus! {

/// Alignment and unit size of a data type, in bytes.
pub struct TensorDataType {
    pub alignment: usize,
    /// size per unit datum
    pub size: usize,
}

/// One tensor: its type tag, its shape and a borrowed view of its bytes.
#[derive(Debug)]
pub struct TensorInfo<'a> {
    pub dtype: String,
    pub shape: Vec<usize>,
    pub data: &'a [u8],
}

/// What index 0 of the buffer stands for.
pub enum WhereTheSliceStarts {
    /// start of slice is start of file
    StartOfFile,
    /// start of slice is right after header
    AfterHeader,
}

/// A named tensor as a mathematical value.
pub struct TensorModel {
    pub name: Seq<char>,
    pub dtype: Seq<char>,
    pub shape: Seq<usize>,
    pub data: Seq<u8>,
}

/// The three ways in which extraction fails.
pub enum LoadFault {
    Header,
    Duplicate(Seq<char>),
    Bounds(Seq<char>, (usize, usize)),
}

/// The fields that a header entry must hold to describe a tensor.
pub struct TensorFields {
    pub dtype: Seq<char>,
    pub shape: Seq<usize>,
    pub offsets: (usize, usize),
}

/// The tensor that a name and a view stand for.
pub open spec fn model_of(entry: (String, TensorInfo)) -> TensorModel {
    TensorModel {
        name: entry.0@,
        dtype: entry.1.dtype@,
        shape: entry.1.shape@,
        data: entry.1.data@,
    }
}

/// The tensors that a list of named views stands for, in the list's order.
pub open spec fn models_of(list: Seq<(String, TensorInfo)>) -> Seq<TensorModel> {
    Seq::new(list.len(), |i: int| model_of(list[i]))
}

/// The way of failing that an error reports.
pub open spec fn fault_of(e: LoadTensorError) -> LoadFault {
    match e {
        LoadTensorError::InvalidHeader { why } => LoadFault::Header,
        LoadTensorError::DuplicateTensorName(name) => LoadFault::Duplicate(name@),
        LoadTensorError::OffsetsOutOfBounds { name, offsets } => LoadFault::Bounds(name@, offsets),
    }
}

/// Keys that begin with an underscore are metadata, not tensors.
pub open spec fn is_reserved(name: Seq<char>) -> bool {
    name.len() > 0 && name[0] == '_'
}

/// Whether a tensor of that name is among `done`.
pub open spec fn has_name(done: Seq<TensorModel>, name: Seq<char>) -> bool {
    exists|i: int| 0 <= i < done.len() && (#[trigger] done[i]).name == name
}

/// Offset of the data region in the buffer.
pub open spec fn global_offset_of(header_end: usize, whence: WhereTheSliceStarts) -> usize {
    match whence {
        WhereTheSliceStarts::StartOfFile => header_end,
        WhereTheSliceStarts::AfterHeader => 0,
    }
}

/// Whether the byte range that `offsets` declares lies within a buffer of
/// `len` bytes whose data region starts at `global`.
pub open spec fn in_bounds(offsets: (usize, usize), global: usize, len: nat) -> bool {
    offsets.0 <= offsets.1 && offsets.1 + global <= len
}

/// The `dtype`, `shape` and `data_offsets` of a header entry, where it is a
/// JSON object that holds all three in their right form.
pub open spec fn tensor_fields(v: serde_json::Value) -> Option<TensorFields> {
    if json_members(v) is None {
        None
    } else if json_field(v, "dtype"@) is None || json_string(json_field(v, "dtype"@).unwrap())
        is None {
        None
    } else if json_field(v, "shape"@) is None || json_usize_list(
        json_field(v, "shape"@).unwrap(),
    ) is None {
        None
    } else if json_field(v, "data_offsets"@) is None || json_usize_pair(
        json_field(v, "data_offsets"@).unwrap(),
    ) is None {
        None
    } else {
        Some(
            TensorFields {
                dtype: json_string(json_field(v, "dtype"@).unwrap()).unwrap(),
                shape: json_usize_list(json_field(v, "shape"@).unwrap()).unwrap(),
                offsets: json_usize_pair(json_field(v, "data_offsets"@).unwrap()).unwrap(),
            },
        )
    }
}

/// Adding one described tensor to those already extracted: its range must
/// lie in the buffer and its name must be new.
pub open spec fn placed(
    done: Seq<TensorModel>,
    name: Seq<char>,
    fields: TensorFields,
    global: usize,
    buffer: Seq<u8>,
) -> Result<Seq<TensorModel>, LoadFault> {
    if !in_bounds(fields.offsets, global, buffer.len()) {
        Err(LoadFault::Bounds(name, fields.offsets))
    } else if has_name(done, name) {
        Err(LoadFault::Duplicate(name))
    } else {
        Ok(
            done.push(
                TensorModel {
                    name,
                    dtype: fields.dtype,
                    shape: fields.shape,
                    data: buffer.subrange(
                        fields.offsets.0 + global,
                        fields.offsets.1 + global,
                    ),
                },
            ),
        )
    }
}

/// Extraction from entry `i` on, with `done` extracted so far: entries are
/// taken in order and the first failure ends the walk.
pub open spec fn loaded_from(
    members: Seq<(Seq<char>, serde_json::Value)>,
    i: int,
    done: Seq<TensorModel>,
    global: usize,
    buffer: Seq<u8>,
) -> Result<Seq<TensorModel>, LoadFault>
    decreases members.len() - i,
{
    if i < 0 || i >= members.len() {
        Ok(done)
    } else if is_reserved(members[i].0) {
        loaded_from(members, i + 1, done, global, buffer)
    } else {
        match tensor_fields(members[i].1) {
            None => Err(LoadFault::Header),
            Some(fields) => match placed(done, members[i].0, fields, global, buffer) {
                Ok(next) => loaded_from(members, i + 1, next, global, buffer),
                Err(fault) => Err(fault),
            },
        }
    }
}

/// What extraction yields for a header value, a buffer and a convention.
pub open spec fn loaded(
    data: serde_json::Value,
    header_end: usize,
    buffer: Seq<u8>,
    whence: WhereTheSliceStarts,
) -> Result<Seq<TensorModel>, LoadFault> {
    match json_members(data) {
        None => Err(LoadFault::Header),
        Some(members) => loaded_from(
            members,
            0,
            Seq::empty(),
            global_offset_of(header_end, whence),
            buffer,
        ),
    }
}

/// The text that `std` writes for a string under `{:?}`: the string between
/// double quotes, with its quotes, backslashes and unprintable characters
/// escaped.
pub uninterp spec fn debug_quoted(text: Seq<char>) -> Seq<char>;

/// The reason that an invalid entry is reported with: what is wrong, then
/// the tensor's name, quoted.
pub open spec fn fault_text(what: Seq<char>, tensor_name: Seq<char>) -> Seq<char> {
    what + ", tensor="@ + debug_quoted(tensor_name)
}

/// Formats a tensor's name with `std`'s `format!` under `{:?}`. Trusted: the
/// text is a function of the name, named `debug_quoted`.
#[verifier::external_body]
fn quote_name(tensor_name: &str) -> (r: String)
    ensures
        r@ == debug_quoted(tensor_name@),
{
    format!("{tensor_name:?}")
}

/// The error for an entry that lacks a field or holds it in a wrong form:
/// an invalid header whose reason is `what`, then the tensor's name.
fn invalid_entry(what: &str, tensor_name: &String) -> (r: LoadTensorError)
    ensures
        r matches LoadTensorError::InvalidHeader { why } && why@ == fault_text(
            what@,
            tensor_name@,
        ),
{
    let mut why: String = String::from_str(what);
    why.append(", tensor=");
    why.append(quote_name(tensor_name.as_str()).as_str());
    LoadTensorError::InvalidHeader { why }
}

/// Whether `name` begins with an underscore.
pub fn name_is_reserved(name: &str) -> (r: bool)
    ensures
        r == is_reserved(name@),
{
    !name.is_empty() && name.get_char(0) == '_'
}

/// Whether a tensor called `name` is in `list`.
pub fn contains_name<'a>(list: &Vec<(String, TensorInfo<'a>)>, name: &String) -> (r: bool)
    ensures
        r == has_name(models_of(list@), name@),
{
    let mut i: usize = 0;
    while i < list.len()
        invariant
            i <= list@.len(),
            forall|j: int| 0 <= j < i ==> (#[trigger] models_of(list@)[j]).name != name@,
        decreases list@.len() - i,
    {
        if list[i].0 == *name {
            assert(models_of(list@)[i as int].name == name@);
            return true;
        }
        i = i + 1;
    }
    false
}

/// Adds the tensor `name` to `list`, with the bytes that `offsets` declare
/// as its view, unless the range leaves the buffer or the name is taken.
pub fn place_tensor<'a>(
    list: &mut Vec<(String, TensorInfo<'a>)>,
    name: String,
    dtype: String,
    shape: Vec<usize>,
    offsets: (usize, usize),
    global: usize,
    slice: &'a [u8],
) -> (r: Result<(), LoadTensorError>)
    ensures
        match placed(
            models_of(old(list)@),
            name@,
            (TensorFields { dtype: dtype@, shape: shape@, offsets }),
            global,
            slice@,
        ) {
            Ok(next) => r is Ok && models_of(final(list)@) == next,
            Err(fault) => r matches Err(e) && fault_of(e) == fault && final(list)@ == old(list)@,
        },
{
    if offsets.0 > offsets.1 || offsets.1 > slice.len() || global > slice.len() - offsets.1 {
        return Err(LoadTensorError::OffsetsOutOfBounds { name, offsets });
    }
    if contains_name(list, &name) {
        return Err(LoadTensorError::DuplicateTensorName(name));
    }
    let data = slice_subrange(slice, offsets.0 + global, offsets.1 + global);
    let ghost before = models_of(list@);
    let ghost added = TensorModel { name: name@, dtype: dtype@, shape: shape@, data: data@ };
    list.push((name, TensorInfo { dtype, shape, data }));
    proof {
        assert(models_of(list@) =~= before.push(added));
    }
    Ok(())
}

/// Reads `dtype`, `shape` and `data_offsets` from a header entry.
fn read_fields(name: &String, v: &serde_json::Value) -> (r: Result<
    (String, Vec<usize>, (usize, usize)),
    LoadTensorError,
>)
    ensures
        r is Ok <==> tensor_fields(*v) is Some,
        r matches Ok(f) ==> tensor_fields(*v) == Some(
            (TensorFields { dtype: f.0@, shape: f.1@, offsets: f.2 }),
        ),
        r matches Err(e) ==> e is InvalidHeader,
{
    if object_members(v).is_none() {
        return Err(invalid_entry("tensor info is not JSON object", name));
    }
    let dtype: String = match object_field(v, "dtype") {
        None => {
            return Err(invalid_entry("tensor info has no valid 'dtype' (should be string)", name));
        },
        Some(x) => match read_string(x) {
            None => {
                return Err(
                    invalid_entry("tensor info has no valid 'dtype' (should be string)", name),
                );
            },
            Some(s) => s,
        },
    };
    let shape: Vec<usize> = match object_field(v, "shape") {
        None => {
            return Err(
                invalid_entry(
                    "tensor info has no valid 'shape' (should be list of numbers)",
                    name,
                ),
            );
        },
        Some(x) => match read_usize_list(x) {
            None => {
                return Err(
                    invalid_entry(
                        "tensor info has no valid 'shape' (should be list of numbers)",
                        name,
                    ),
                );
            },
            Some(s) => s,
        },
    };
    let offsets: (usize, usize) = match object_field(v, "data_offsets") {
        None => {
            return Err(
                invalid_entry(
                    "tensor info has no valid 'data_offsets' (should be a pair of numbers)",
                    name,
                ),
            );
        },
        Some(x) => match read_usize_pair(x) {
            None => {
                return Err(
                    invalid_entry(
                        "tensor info has no valid 'data_offsets' (should be a pair of numbers)",
                        name,
                    ),
                );
            },
            Some(s) => s,
        },
    };
    Ok((dtype, shape, offsets))
}

/// Extracts the tensors that `header` describes as views into `slice`.
/// Entries are taken in the header's order; keys that begin with an
/// underscore are skipped; the first entry that is malformed, out of
/// bounds or a repeated name ends the extraction with its error.
pub fn load_tensors<'a>(
    header: &SafetensorsHeader,
    slice: &'a [u8],
    slice_start_where: WhereTheSliceStarts,
) -> (r: Result<Vec<(String, TensorInfo<'a>)>, LoadTensorError>)
    ensures
        match loaded(header.data, header.offset_end_of_header, slice@, slice_start_where) {
            Ok(tensors) => r matches Ok(list) && models_of(list@) == tensors,
            Err(fault) => r matches Err(e) && fault_of(e) == fault,
        },
{
    let global: usize = match slice_start_where {
        WhereTheSliceStarts::StartOfFile => header.offset_end_of_header,
        WhereTheSliceStarts::AfterHeader => 0,
    };
    let members = match object_members(&header.data) {
        None => {
            return Err(
                LoadTensorError::InvalidHeader { why: "header is not JSON object".to_owned() },
            );
        },
        Some(m) => m,
    };
    let ghost spec_members = json_members(header.data).unwrap();
    let mut result: Vec<(String, TensorInfo<'a>)> = Vec::new();
    let mut i: usize = 0;
    proof {
        assert(models_of(result@) =~= Seq::<TensorModel>::empty());
    }
    while i < members.len()
        invariant
            i <= members@.len(),
            members@.len() == spec_members.len(),
            json_members(header.data) == Some(spec_members),
            global == global_offset_of(header.offset_end_of_header, slice_start_where),
            forall|k: int|
                0 <= k < members@.len() ==> (#[trigger] members@[k]).0@ == spec_members[k].0
                    && *members@[k].1 == spec_members[k].1,
            loaded_from(spec_members, i as int, models_of(result@), global, slice@) == loaded_from(
                spec_members,
                0,
                Seq::empty(),
                global,
                slice@,
            ),
        decreases members@.len() - i,
    {
        let name: &String = &members[i].0;
        let value: &serde_json::Value = members[i].1;
        if !name_is_reserved(name.as_str()) {
            match read_fields(name, value) {
                Err(e) => {
                    return Err(e);
                },
                Ok(fields) => {
                    let (dtype, shape, offsets) = fields;
                    match place_tensor(
                        &mut result,
                        name.clone(),
                        dtype,
                        shape,
                        offsets,
                        global,
                        slice,
                    ) {
                        Err(e) => {
                            return Err(e);
                        },
                        Ok(()) => {},
                    }
                },
            }
        }
        i = i + 1;
    }
    Ok(result)
}

/// A range that ends even one byte past the buffer is out of bounds,
/// whatever else holds of the entry.
pub proof fn lemma_past_the_end_is_rejected(
    done: Seq<TensorModel>,
    name: Seq<char>,
    fields: TensorFields,
    global: usize,
    buffer: Seq<u8>,
)
    requires
        fields.offsets.1 + global > buffer.len(),
    ensures
        placed(done, name, fields, global, buffer) == Err::<Seq<TensorModel>, LoadFault>(
            LoadFault::Bounds(name, fields.offsets),
        ),
{
}

/// A name that was extracted before is a duplicate.
pub proof fn lemma_repeated_name_is_rejected(
    done: Seq<TensorModel>,
    name: Seq<char>,
    fields: TensorFields,
    global: usize,
    buffer: Seq<u8>,
)
    requires
        in_bounds(fields.offsets, global, buffer.len()),
        has_name(done, name),
    ensures
        placed(done, name, fields, global, buffer) == Err::<Seq<TensorModel>, LoadFault>(
            LoadFault::Duplicate(name),
        ),
{
}

/// Whether no two of `tensors` share a name and none has a reserved name.
pub open spec fn names_are_sound(tensors: Seq<TensorModel>) -> bool {
    &&& forall|i: int, j: int|
        0 <= i < j < tensors.len() ==> (#[trigger] tensors[i]).name != (#[trigger] tensors[j]).name
    &&& forall|i: int| 0 <= i < tensors.len() ==> !is_reserved((#[trigger] tensors[i]).name)
}

/// Whether every view of `tensors` is a range of `buffer`.
pub open spec fn views_lie_in(tensors: Seq<TensorModel>, buffer: Seq<u8>) -> bool {
    forall|i: int|
        0 <= i < tensors.len() ==> exists|a: int, b: int|
            0 <= a <= b <= buffer.len() && (#[trigger] tensors[i]).data == buffer.subrange(a, b)
}

/// What extraction yields, where it succeeds, has no name twice, no
/// reserved name, and only views that lie in the buffer.
pub proof fn lemma_loaded_is_sound(
    members: Seq<(Seq<char>, serde_json::Value)>,
    i: int,
    done: Seq<TensorModel>,
    global: usize,
    buffer: Seq<u8>,
)
    requires
        0 <= i,
        names_are_sound(done),
        views_lie_in(done, buffer),
    ensures
        loaded_from(members, i, done, global, buffer) matches Ok(tensors) ==> names_are_sound(
            tensors,
        ) && views_lie_in(tensors, buffer),
    decreases members.len() - i,
{
    if i < members.len() {
        if is_reserved(members[i].0) {
            lemma_loaded_is_sound(members, i + 1, done, global, buffer);
        } else {
            match tensor_fields(members[i].1) {
                None => {},
                Some(fields) => match placed(done, members[i].0, fields, global, buffer) {
                    Ok(next) => {
                        let a = fields.offsets.0 + global;
                        let b = fields.offsets.1 + global;
                        assert(0 <= a <= b <= buffer.len() && next.last().data == buffer.subrange(
                            a,
                            b,
                        ));
                        assert forall|k: int| 0 <= k < next.len() implies exists|a: int, b: int|
                            0 <= a <= b <= buffer.len() && (#[trigger] next[k]).data
                                == buffer.subrange(a, b) by {
                            if k < done.len() {
                                assert(next[k] == done[k]);
                            }
                        }
                        assert forall|x: int, y: int| 0 <= x < y < next.len() implies (
                        #[trigger] next[x]).name != (#[trigger] next[y]).name by {
                            if y == done.len() {
                                assert(next[x] == done[x]);
                            } else {
                                assert(next[x] == done[x] && next[y] == done[y]);
                            }
                        }
                        lemma_loaded_is_sound(members, i + 1, next, global, buffer);
                    },
                    Err(_) => {},
                },
            }
        }
    }
}

/// A list of string pairs as a mathematical value.
pub open spec fn pairs_view(pairs: Seq<(String, String)>) -> Seq<(Seq<char>, Seq<char>)> {
    Seq::new(pairs.len(), |i: int| (pairs[i].0@, pairs[i].1@))
}

/// The container's metadata as the header holds it: none where the header
/// has no metadata key; the pairs of the object under that key, in the
/// object's order, where every value is a string; a fault otherwise.
pub open spec fn metadata_of(data: serde_json::Value) -> Result<
    Option<Seq<(Seq<char>, Seq<char>)>>,
    LoadFault,
> {
    match json_field(data, "__metadata__"@) {
        None => Ok(None),
        Some(m) => match json_members(m) {
            None => Err(LoadFault::Header),
            Some(members) => if forall|i: int|
                0 <= i < members.len() ==> json_string((#[trigger] members[i]).1) is Some {
                Ok(
                    Some(
                        Seq::new(
                            members.len(),
                            |i: int| (members[i].0, json_string(members[i].1).unwrap()),
                        ),
                    ),
                )
            } else {
                Err(LoadFault::Header)
            },
        },
    }
}

/// Reads the container's metadata from the header.
pub fn header_metadata(header: &SafetensorsHeader) -> (r: Result<
    Option<Vec<(String, String)>>,
    LoadTensorError,
>)
    ensures
        match metadata_of(header.data) {
            Ok(None) => r matches Ok(None),
            Ok(Some(pairs)) => r matches Ok(Some(list)) && pairs_view(list@) == pairs,
            Err(fault) => r matches Err(e) && fault_of(e) == fault,
        },
{
    let holder = match object_field(&header.data, "__metadata__") {
        None => {
            return Ok(None);
        },
        Some(m) => m,
    };
    let members = match object_members(holder) {
        None => {
            return Err(
                LoadTensorError::InvalidHeader { why: "metadata is not JSON object".to_owned() },
            );
        },
        Some(m) => m,
    };
    let ghost spec_members = json_members(*holder).unwrap();
    let mut out: Vec<(String, String)> = Vec::new();
    let mut i: usize = 0;
    while i < members.len()
        invariant
            i <= members@.len(),
            members@.len() == spec_members.len(),
            forall|k: int|
                0 <= k < members@.len() ==> (#[trigger] members@[k]).0@ == spec_members[k].0
                    && *members@[k].1 == spec_members[k].1,
            json_field(header.data, "__metadata__"@) == Some(*holder),
            json_members(*holder) == Some(spec_members),
            out@.len() == i,
            forall|k: int| 0 <= k < i ==> json_string((#[trigger] spec_members[k]).1) is Some,
            forall|k: int|
                0 <= k < i ==> (#[trigger] out@[k]).0@ == spec_members[k].0 && Some(out@[k].1@)
                    == json_string(spec_members[k].1),
        decreases members@.len() - i,
    {
        match read_string(members[i].1) {
            None => {
                assert(json_string(spec_members[i as int].1) is None);
                return Err(invalid_entry("metadata value is not a string", &members[i].0));
            },
            Some(text) => {
                out.push((members[i].0.clone(), text));
            },
        }
        i = i + 1;
    }
    proof {
        assert(pairs_view(out@) =~= Seq::new(
            spec_members.len(),
            |i: int| (spec_members[i].0, json_string(spec_members[i].1).unwrap()),
        ));
    }
    Ok(Some(out))
}

} // verus!
