//! The container serializer: length prefix, header padded to a multiple of
//! eight, then the planned data region.

use crate::codec::{le_digits, lemma_le_digits_len, lemma_le_roundtrip, radix_pow, u64_to_le};
use crate::header::{declared_len, header_region, header_region_present};
use crate::json::{
    empty_object, encode, insert_member, json_encoding, json_field, json_members, json_string,
    number_list, text_value,
};
use crate::layout::{
    bytes_of, entry_end, entry_start, next_multiple_of, region_bytes, region_len, round_up, zeros,
    lemma_round_up_is_least, TensorPlaner, TensorPlanerTensor,
};
use crate::tensors::{has_name, placed, tensor_fields, LoadFault, TensorFields, TensorModel};
use vstd::prelude::*;

verus! {

/// Multiple to which the header is padded.
pub const HEADER_ALIGNMENT: usize = 8;

/// The length that the prefix declares for a header of `json_len` bytes.
pub open spec fn padded_len(json_len: nat) -> int {
    round_up(json_len as int, 8)
}

/// The bytes of a container: the padded header length as eight
/// little-endian bytes, the header text, zero bytes up to the padded
/// length, then the data region.
pub open spec fn container_bytes(json: Seq<u8>, entries: Seq<TensorPlanerTensor>) -> Seq<u8> {
    le_digits(padded_len(json.len()) as nat, 8) + json + zeros(
        (padded_len(json.len()) - json.len()) as nat,
    ) + region_bytes(entries)
}

/// Appends `count` zero bytes.
pub fn push_zeros(out: &mut Vec<u8>, count: usize)
    ensures
        final(out)@ == old(out)@ + zeros(count as nat),
{
    let ghost start = out@;
    let mut i: usize = 0;
    assert(out@ =~= start + zeros(0));
    while i < count
        invariant
            i <= count,
            out@ == start + zeros(i as nat),
        decreases count - i,
    {
        out.push(0u8);
        i = i + 1;
        assert(out@ =~= start + zeros(i as nat));
    }
}

/// Appends `bytes`.
pub fn push_bytes(out: &mut Vec<u8>, bytes: &[u8])
    ensures
        final(out)@ == old(out)@ + bytes@,
{
    let ghost start = out@;
    out.extend_from_slice(bytes);
    assert(out@ =~= start + bytes@);
}

/// Writes a container from the text of its header and the planned writes.
pub fn assemble(json: &[u8], planner: &TensorPlaner) -> (r: Vec<u8>)
    requires
        json@.len() + 7 <= usize::MAX,
    ensures
        r@ == container_bytes(json@, planner.tensors@),
{
    proof {
        lemma_round_up_is_least(json@.len() as int, 8);
    }
    let header_len: usize = next_multiple_of(json.len(), HEADER_ALIGNMENT);
    let padding: usize = header_len - json.len();
    let mut out: Vec<u8> = u64_to_le(header_len as u64);
    push_bytes(&mut out, json);
    push_zeros(&mut out, padding);
    let ghost head = out@;
    let mut k: usize = 0;
    assert(out@ =~= head + region_bytes(planner.tensors@.take(0)));
    while k < planner.tensors.len()
        invariant
            k <= planner.tensors@.len(),
            out@ == head + region_bytes(planner.tensors@.take(k as int)),
        decreases planner.tensors@.len() - k,
    {
        let entry = &planner.tensors[k];
        push_zeros(&mut out, entry.leading_padding);
        push_bytes(&mut out, bytes_of(&entry.data));
        proof {
            let next = planner.tensors@.take(k + 1);
            assert(next.drop_last() =~= planner.tensors@.take(k as int));
            assert(next.last() == planner.tensors@[k as int]);
            assert(out@ =~= head + region_bytes(next));
        }
        k = k + 1;
    }
    proof {
        assert(planner.tensors@.take(planner.tensors@.len() as int) =~= planner.tensors@);
    }
    out
}

/// The layout of a container: the prefix declares the padded length, the
/// declared region holds the header text and then zero bytes, and the data
/// region follows it.
pub proof fn lemma_container_layout(json: Seq<u8>, entries: Seq<TensorPlanerTensor>)
    requires
        padded_len(json.len()) < radix_pow(8),
    ensures
        container_bytes(json, entries).len() == 8 + padded_len(json.len()) + region_len(entries),
        declared_len(container_bytes(json, entries)) == padded_len(json.len()),
        header_region_present(container_bytes(json, entries)),
        header_region(container_bytes(json, entries)) == json + zeros(
            (padded_len(json.len()) - json.len()) as nat,
        ),
        container_bytes(json, entries).subrange(
            8 + padded_len(json.len()),
            container_bytes(json, entries).len() as int,
        ) == region_bytes(entries),
{
    let padded = padded_len(json.len());
    let whole = container_bytes(json, entries);
    lemma_round_up_is_least(json.len() as int, 8);
    lemma_le_digits_len(padded as nat, 8);
    lemma_le_roundtrip(padded as nat, 8);
    crate::layout::lemma_region_bytes_len(entries);
    assert(whole.subrange(0, 8) =~= le_digits(padded as nat, 8));
    assert(whole.subrange(8, 8 + padded) =~= json + zeros((padded - json.len()) as nat));
    assert(whole.subrange(8 + padded, whole.len() as int) =~= region_bytes(entries));
}

/// The declared header length is a multiple of eight, is not below the
/// length of the header text and exceeds it by less than eight, and every
/// byte of the declared region after the text is zero.
pub proof fn lemma_header_padding(json: Seq<u8>, entries: Seq<TensorPlanerTensor>)
    requires
        padded_len(json.len()) < radix_pow(8),
    ensures
        declared_len(container_bytes(json, entries)) % 8 == 0,
        json.len() <= declared_len(container_bytes(json, entries)) < json.len() + 8,
        header_region(container_bytes(json, entries)).subrange(0, json.len() as int) == json,
        forall|k: int|
            json.len() <= k < declared_len(container_bytes(json, entries)) ==> header_region(
                container_bytes(json, entries),
            )[k] == 0,
{
    lemma_container_layout(json, entries);
    lemma_round_up_is_least(json.len() as int, 8);
    let region = header_region(container_bytes(json, entries));
    assert(region.subrange(0, json.len() as int) =~= json);
}

/// A planned write reads back: an entry that declares the offsets of write
/// `i` is in bounds of the container under the start-of-file convention,
/// and its view is the data of that write.
pub proof fn lemma_written_tensor_reads_back(
    json: Seq<u8>,
    entries: Seq<TensorPlanerTensor>,
    i: int,
    done: Seq<TensorModel>,
    name: Seq<char>,
    dtype: Seq<char>,
    shape: Seq<usize>,
)
    requires
        padded_len(json.len()) < radix_pow(8),
        container_bytes(json, entries).len() <= usize::MAX,
        0 <= i < entries.len(),
        !has_name(done, name),
    ensures
        placed(
            done,
            name,
            (TensorFields {
                dtype,
                shape,
                offsets: (entry_start(entries, i) as usize, entry_end(entries, i) as usize),
            }),
            (8 + padded_len(json.len())) as usize,
            container_bytes(json, entries),
        ) == Ok::<Seq<TensorModel>, LoadFault>(
            done.push((TensorModel { name, dtype, shape, data: entries[i].data@ })),
        ),
{
    let whole = container_bytes(json, entries);
    let base = 8 + padded_len(json.len());
    lemma_container_layout(json, entries);
    crate::layout::lemma_region_holds_entry(entries, i);
    let start = entry_start(entries, i);
    let end = entry_end(entries, i);
    assert(whole.subrange(start + base, end + base) =~= region_bytes(entries).subrange(
        start as int,
        end as int,
    ));
}

/// What the header says of one tensor.
#[derive(Debug)]
pub struct HeaderEntry {
    pub name: String,
    pub dtype: String,
    pub shape: Vec<usize>,
    /// start and end of the tensor's bytes, counted from the end of the header
    pub data_offsets: (usize, usize),
}

/// Why a container could not be written.
#[derive(Debug, Clone, Copy, PartialEq, Eq, Structural)]
pub enum SerializeError {
    /// the header could not be written as JSON text
    HeaderNotEncodable,
    /// the header text is too long to be padded
    HeaderTooLong,
}

impl HeaderEntry {
    /// What the entry declares of its tensor.
    pub open spec fn fields(&self) -> TensorFields {
        TensorFields { dtype: self.dtype@, shape: self.shape@, offsets: self.data_offsets }
    }
}

/// The key under which a header holds the container's metadata.
pub open spec fn metadata_key() -> Seq<char> {
    "__metadata__"@
}

/// The names of the entries, in their order.
pub open spec fn entry_names(entries: Seq<HeaderEntry>) -> Seq<Seq<char>> {
    Seq::new(entries.len(), |i: int| entries[i].name@)
}

/// The keys of the pairs, in their order.
pub open spec fn pair_keys(pairs: Seq<(String, String)>) -> Seq<Seq<char>> {
    Seq::new(pairs.len(), |i: int| pairs[i].0@)
}

/// Whether `names[i]` does not occur again among the first `n` names.
pub open spec fn is_last_of_name(names: Seq<Seq<char>>, i: int, n: int) -> bool {
    &&& 0 <= i < n <= names.len()
    &&& forall|j: int| i < j < n ==> names[j] != names[i]
}

/// Whether `key` is among the first `n` names.
pub open spec fn is_named(names: Seq<Seq<char>>, key: Seq<char>, n: int) -> bool {
    exists|j: int| 0 <= j < n && j < names.len() && names[j] == key
}

/// Whether the object `v` holds the first `n` of `pairs` as JSON strings:
/// each key with the text that was given for it last, and no other key.
pub open spec fn holds_pairs(v: serde_json::Value, pairs: Seq<(String, String)>, n: int) -> bool {
    &&& json_members(v) is Some
    &&& forall|i: int| #[trigger]
        is_last_of_name(pair_keys(pairs), i, n) ==> json_field(v, pairs[i].0@) is Some
            && json_string(json_field(v, pairs[i].0@).unwrap()) == Some(pairs[i].1@)
    &&& forall|k: Seq<char>|
        !is_named(pair_keys(pairs), k, n) ==> (#[trigger] json_field(v, k)) is None
}

/// Whether the object `h` describes the first `n` of `entries`: under each
/// name the type tag, shape and offsets that were given for it last.
pub open spec fn describes_entries(h: serde_json::Value, entries: Seq<HeaderEntry>, n: int) -> bool {
    forall|i: int| #[trigger]
        is_last_of_name(entry_names(entries), i, n) ==> json_field(h, entries[i].name@) is Some
            && tensor_fields(json_field(h, entries[i].name@).unwrap()) == Some(entries[i].fields())
}

/// Whether `h` is the header for `metadata` and `entries`. It is an object.
/// It describes every entry. Where no entry is named like the metadata
/// key, it holds the metadata under that key, if there is any. It holds
/// nothing under any other key.
pub open spec fn is_header_for(
    h: serde_json::Value,
    metadata: Option<Vec<(String, String)>>,
    entries: Seq<HeaderEntry>,
) -> bool {
    &&& json_members(h) is Some
    &&& describes_entries(h, entries, entries.len() as int)
    &&& !is_named(entry_names(entries), metadata_key(), entries.len() as int) ==> match metadata {
        Some(pairs) => json_field(h, metadata_key()) is Some && holds_pairs(
            json_field(h, metadata_key()).unwrap(),
            pairs@,
            pairs@.len() as int,
        ),
        None => json_field(h, metadata_key()) is None,
    }
    &&& forall|k: Seq<char>|
        k != metadata_key() && !is_named(entry_names(entries), k, entries.len() as int) ==> (
        #[trigger] json_field(h, k)) is None
}

/// The JSON object that describes one tensor.
fn tensor_value(entry: &HeaderEntry) -> (r: serde_json::Value)
    ensures
        tensor_fields(r) == Some(entry.fields()),
{
    let mut v = empty_object();
    insert_member(&mut v, "dtype", text_value(entry.dtype.as_str()));
    insert_member(&mut v, "shape", number_list(crate::catalog::copy_shape(&entry.shape)));
    let mut pair: Vec<usize> = Vec::new();
    pair.push(entry.data_offsets.0);
    pair.push(entry.data_offsets.1);
    insert_member(&mut v, "data_offsets", number_list(pair));
    proof {
        reveal_strlit("dtype");
        reveal_strlit("shape");
        reveal_strlit("data_offsets");
        assert("dtype"@[0] == 'd' && "shape"@[0] == 's' && "data_offsets"@.len() == 12);
        assert("dtype"@.len() == 5 && "shape"@.len() == 5);
        assert(json_field(v, "dtype"@) is Some);
        assert(json_field(v, "shape"@) is Some);
    }
    v
}

/// The JSON object that holds the metadata.
fn metadata_value(pairs: &Vec<(String, String)>) -> (r: serde_json::Value)
    ensures
        holds_pairs(r, pairs@, pairs@.len() as int),
{
    let mut v = empty_object();
    let mut n: usize = 0;
    while n < pairs.len()
        invariant
            n <= pairs@.len(),
            holds_pairs(v, pairs@, n as int),
        decreases pairs@.len() - n,
    {
        let ghost before = v;
        let ghost keys = pair_keys(pairs@);
        insert_member(&mut v, pairs[n].0.as_str(), text_value(pairs[n].1.as_str()));
        proof {
            assert(keys[n as int] == pairs@[n as int].0@);
            assert forall|i: int| #[trigger] is_last_of_name(keys, i, n + 1) implies json_field(
                v,
                pairs@[i].0@,
            ) is Some && json_string(json_field(v, pairs@[i].0@).unwrap()) == Some(
                pairs@[i].1@,
            ) by {
                if i < n {
                    assert(keys[n as int] != keys[i]);
                    assert(is_last_of_name(keys, i, n as int));
                    assert(json_field(v, pairs@[i].0@) == json_field(before, pairs@[i].0@));
                }
            }
            assert forall|k: Seq<char>| !is_named(keys, k, n + 1) implies (#[trigger] json_field(
                v,
                k,
            )) is None by {
                assert(keys[n as int] != k);
                assert(!is_named(keys, k, n as int)) by {
                    if is_named(keys, k, n as int) {
                        let j = choose|j: int| 0 <= j < n && j < keys.len() && keys[j] == k;
                        assert(0 <= j < n + 1 && keys[j] == k);
                    }
                }
                assert(json_field(v, k) == json_field(before, k));
            }
        }
        n = n + 1;
    }
    v
}

/// Builds the header: the metadata, where there is any, under the metadata
/// key, then each tensor's description under the tensor's name. Of two
/// entries with one name the later stands.
pub fn build_header(metadata: &Option<Vec<(String, String)>>, entries: &Vec<HeaderEntry>) -> (r:
    serde_json::Value)
    ensures
        is_header_for(r, *metadata, entries@),
{
    let mut h = empty_object();
    match metadata {
        Some(pairs) => {
            insert_member(&mut h, "__metadata__", metadata_value(pairs));
        },
        None => {},
    }
    let ghost start = h;
    let ghost names = entry_names(entries@);
    let mut n: usize = 0;
    while n < entries.len()
        invariant
            n <= entries@.len(),
            names == entry_names(entries@),
            json_members(h) is Some,
            describes_entries(h, entries@, n as int),
            forall|k: Seq<char>|
                !is_named(names, k, n as int) ==> #[trigger] json_field(h, k) == json_field(
                    start,
                    k,
                ),
        decreases entries@.len() - n,
    {
        let ghost before = h;
        insert_member(&mut h, entries[n].name.as_str(), tensor_value(&entries[n]));
        proof {
            assert(names[n as int] == entries@[n as int].name@);
            assert forall|i: int| #[trigger] is_last_of_name(names, i, n + 1) implies json_field(
                h,
                entries@[i].name@,
            ) is Some && tensor_fields(json_field(h, entries@[i].name@).unwrap()) == Some(
                entries@[i].fields(),
            ) by {
                if i < n {
                    assert(names[n as int] != names[i]);
                    assert(is_last_of_name(names, i, n as int));
                    assert(json_field(h, entries@[i].name@) == json_field(
                        before,
                        entries@[i].name@,
                    ));
                }
            }
            assert forall|k: Seq<char>| !is_named(names, k, n + 1) implies #[trigger] json_field(
                h,
                k,
            ) == json_field(start, k) by {
                assert(names[n as int] != k);
                assert(!is_named(names, k, n as int)) by {
                    if is_named(names, k, n as int) {
                        let j = choose|j: int| 0 <= j < n && j < names.len() && names[j] == k;
                        assert(0 <= j < n + 1 && names[j] == k);
                    }
                }
                assert(json_field(h, k) == json_field(before, k));
            }
        }
        n = n + 1;
    }
    h
}

/// The container for a header text: `None` where the text is too long to
/// be padded.
pub fn assemble_checked(json: &[u8], planner: &TensorPlaner) -> (r: Result<Vec<u8>, SerializeError>)
    ensures
        json@.len() + 7 <= usize::MAX ==> (r matches Ok(bytes) && bytes@ == container_bytes(
            json@,
            planner.tensors@,
        )),
        json@.len() + 7 > usize::MAX ==> r == Err::<Vec<u8>, SerializeError>(
            SerializeError::HeaderTooLong,
        ),
{
    if json.len() > usize::MAX - 7 {
        Err(SerializeError::HeaderTooLong)
    } else {
        Ok(assemble(json, planner))
    }
}

/// Writes the container for `metadata`, `entries` and the planned writes:
/// the header is built, written as JSON text and padded, and the data
/// region follows it.
pub fn serialize_container(
    metadata: &Option<Vec<(String, String)>>,
    entries: &Vec<HeaderEntry>,
    planner: &TensorPlaner,
) -> (r: Result<Vec<u8>, SerializeError>)
    ensures
        exists|h: serde_json::Value| #[trigger]
            is_header_for(h, *metadata, entries@) && match json_encoding(h) {
                None => r == Err::<Vec<u8>, SerializeError>(SerializeError::HeaderNotEncodable),
                Some(json) => if json.len() + 7 <= usize::MAX {
                    r matches Ok(bytes) && bytes@ == container_bytes(json, planner.tensors@)
                } else {
                    r == Err::<Vec<u8>, SerializeError>(SerializeError::HeaderTooLong)
                },
            },
{
    let h = build_header(metadata, entries);
    match encode(&h) {
        Err(_) => Err(SerializeError::HeaderNotEncodable),
        Ok(json) => assemble_checked(json.as_slice(), planner),
    }
}

} // verus!
