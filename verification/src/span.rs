use vstd::prelude::*;
use vstd::bytes::{spec_u64_from_le_bytes, spec_u64_to_le_bytes, u64_to_le_bytes};

use vstd::string::StringSliceAdditionalSpecFns;

use crate::order::{is_stable_sort_order, name_keys, stable_sort_order, str_eq};

verus! {

/// The most fields that a span's data can index.
pub const MAX_SPAN_FIELDS: usize = 32;

/// One field of a span: its name and a sort index. Read in field order, the sort
/// indices list the fields in name order: the sort index of the `i`-th field is the
/// index of the field whose name comes `i`-th in sorted order.
pub struct FieldValueIndex {
    pub field: &'static str,
    pub sort_index: u8,
}

/// What the layer keeps for a span from its creation on: its fields and the two
/// activity IDs that its start and stop events carry.
pub struct SpanData {
    pub fields: Vec<FieldValueIndex>,
    pub activity_id: [u8; 16],
    pub related_activity_id: [u8; 16],
}

/// The sort indices of a sequence of fields.
pub open spec fn sort_indices(fields: Seq<FieldValueIndex>) -> Seq<u8> {
    fields.map_values(|f: FieldValueIndex| f.sort_index)
}

/// The activity ID of span `id`: byte 0 is 1, bytes 1..8 come from the seed, and
/// bytes 8..16 hold the span ID in little-endian order.
pub open spec fn activity_id_for(seed: Seq<u8>, id: u64) -> Seq<u8> {
    seq![1u8] + seed.subrange(1, 8) + spec_u64_to_le_bytes(id)
}

/// The related activity ID of a span whose parent span ID is `parent`: the parent's
/// activity ID when there is a parent (a non-zero ID), else the seed with byte 0
/// cleared.
pub open spec fn related_activity_id_for(seed: Seq<u8>, parent: u64) -> Seq<u8> {
    if parent != 0 {
        activity_id_for(seed, parent)
    } else {
        seq![0u8] + seed.subrange(1, 16)
    }
}

/// The parent span ID recorded for a new span: the explicit parent's ID, taken only
/// when the span's parent is contextual, and 0 otherwise.
pub open spec fn spec_span_parent_id(is_contextual: bool, explicit_parent: Option<u64>) -> u64 {
    if is_contextual {
        match explicit_parent {
            Some(p) => p,
            None => 0,
        }
    } else {
        0
    }
}

/// A new span records a parent ID only when its parent is contextual and one is
/// given; otherwise the recorded parent ID is 0.
pub proof fn lemma_span_parent_id_cases(p: u64)
    ensures
        spec_span_parent_id(true, Some(p)) == p,
        spec_span_parent_id(true, None) == 0,
        spec_span_parent_id(false, Some(p)) == 0,
        spec_span_parent_id(false, None) == 0,
{
}

/// The parent span ID that a new span records (0 for none).
pub fn span_parent_id(is_contextual: bool, explicit_parent: Option<u64>) -> (id: u64)
    ensures
        id == spec_span_parent_id(is_contextual, explicit_parent),
{
    if is_contextual {
        match explicit_parent {
            Some(p) => p,
            None => 0,
        }
    } else {
        0
    }
}

/// Writes the activity ID of span `id` over `seed`.
fn activity_id_from_seed(seed: &[u8; 16], id: u64) -> (out: [u8; 16])
    ensures
        out@ == activity_id_for(seed@, id),
{
    let mut out: [u8; 16] = *seed;
    let bytes = u64_to_le_bytes(id);
    proof {
        vstd::bytes::lemma_auto_spec_u64_to_from_le_bytes();
    }
    let mut k: usize = 0;
    while k < 8
        invariant
            bytes@ == spec_u64_to_le_bytes(id),
            bytes@.len() == 8,
            k <= 8,
            out@.len() == 16,
            forall|j: int| 0 <= j < 8 ==> out@[j] == seed@[j],
            forall|j: int| 0 <= j < k ==> out@[8 + j] == bytes@[j],
        decreases 8 - k,
    {
        out[8 + k] = bytes[k];
        k = k + 1;
    }
    out[0] = 1;
    assert(out@ =~= activity_id_for(seed@, id));
    out
}

/// The data that a new span starts with. Field `i` is `field_names[i]`, and its sort
/// index is the index of the field whose name comes `i`-th in the order that a
/// stable sort of the names gives; the activity IDs come from the process-wide seed, the span's ID and
/// its parent's ID (0 for none).
pub fn new_span_data(
    field_names: &Vec<&'static str>,
    span_id: u64,
    parent_span_id: u64,
    seed: &[u8; 16],
) -> (data: SpanData)
    requires
        field_names.len() <= MAX_SPAN_FIELDS,
    ensures
        data.fields.len() == field_names.len(),
        forall|i: int| 0 <= i < field_names.len() ==> (#[trigger] data.fields@[i]).field == field_names@[i],
        is_stable_sort_order(name_keys(field_names@), sort_indices(data.fields@)),
        data.activity_id@ == activity_id_for(seed@, span_id),
        data.related_activity_id@ == related_activity_id_for(seed@, parent_span_id),
{
    let order = stable_sort_order(field_names);
    let n = field_names.len();
    let mut fields: Vec<FieldValueIndex> = Vec::new();
    let mut i: usize = 0;
    while i < n
        invariant
            n == field_names.len(),
            n == order.len(),
            i <= n,
            fields.len() == i,
            forall|j: int| 0 <= j < i ==> (#[trigger] fields@[j]).field == field_names@[j],
            forall|j: int| 0 <= j < i ==> (#[trigger] fields@[j]).sort_index == order@[j],
        decreases n - i,
    {
        fields.push(FieldValueIndex { field: field_names[i], sort_index: order[i] });
        i = i + 1;
    }
    assert(sort_indices(fields@) =~= order@);
    let activity_id = activity_id_from_seed(seed, span_id);
    let related_activity_id = if parent_span_id != 0 {
        activity_id_from_seed(seed, parent_span_id)
    } else {
        let mut r: [u8; 16] = *seed;
        r[0] = 0;
        assert(r@ =~= related_activity_id_for(seed@, parent_span_id));
        r
    };
    SpanData { fields, activity_id, related_activity_id }
}

/// The position of the first field named `name`, if a field has that name: where a
/// recorded value goes.
pub fn field_position(fields: &Vec<FieldValueIndex>, name: &str) -> (pos: Option<usize>)
    ensures
        match pos {
            Some(i) => i < fields.len() && fields@[i as int].field.spec_bytes() == name.spec_bytes()
                && forall|j: int| 0 <= j < i ==> (#[trigger] fields@[j]).field.spec_bytes() != name.spec_bytes(),
            None => forall|j: int| 0 <= j < fields.len() ==> (#[trigger] fields@[j]).field.spec_bytes() != name.spec_bytes(),
        },
{
    let mut i: usize = 0;
    while i < fields.len()
        invariant
            i <= fields.len(),
            forall|j: int| 0 <= j < i ==> (#[trigger] fields@[j]).field.spec_bytes() != name.spec_bytes(),
        decreases fields.len() - i,
    {
        if str_eq(fields[i].field, name) {
            return Some(i);
        }
        i = i + 1;
    }
    None
}

/// The related activity ID of a span with a parent (a non-zero parent ID) names
/// that parent: byte 0 is 1, bytes 1..8 come from the seed, and bytes 8..16 decode
/// back to the full parent ID, so it equals the parent span's own activity ID.
/// Without a parent it is the seed with byte 0 cleared.
pub proof fn lemma_related_activity_id_names_parent(seed: Seq<u8>, parent: u64)
    requires
        seed.len() == 16,
    ensures
        related_activity_id_for(seed, parent).len() == 16,
        parent != 0 ==> related_activity_id_for(seed, parent)[0] == 1,
        parent != 0 ==> related_activity_id_for(seed, parent).subrange(1, 8) == seed.subrange(1, 8),
        parent != 0 ==> spec_u64_from_le_bytes(related_activity_id_for(seed, parent).subrange(8, 16)) == parent,
        parent != 0 ==> related_activity_id_for(seed, parent) == activity_id_for(seed, parent),
        parent == 0 ==> related_activity_id_for(seed, parent)[0] == 0,
        parent == 0 ==> related_activity_id_for(seed, parent).subrange(1, 16) == seed.subrange(1, 16),
{
    vstd::bytes::lemma_auto_spec_u64_to_from_le_bytes();
    let r = related_activity_id_for(seed, parent);
    if parent != 0 {
        assert(r.subrange(8, 16) =~= spec_u64_to_le_bytes(parent));
        assert(r.subrange(1, 8) =~= seed.subrange(1, 8));
    } else {
        assert(r.subrange(1, 16) =~= seed.subrange(1, 16));
    }
}

/// The span ID is recovered from the last eight bytes of the span's activity ID:
/// spans with different IDs get different activity IDs.
pub proof fn lemma_activity_id_encodes_span_id(seed: Seq<u8>, id: u64)
    requires
        seed.len() == 16,
    ensures
        activity_id_for(seed, id).len() == 16,
        activity_id_for(seed, id)[0] == 1,
        activity_id_for(seed, id).subrange(1, 8) == seed.subrange(1, 8),
        spec_u64_from_le_bytes(activity_id_for(seed, id).subrange(8, 16)) == id,
{
    vstd::bytes::lemma_auto_spec_u64_to_from_le_bytes();
    let a = activity_id_for(seed, id);
    assert(a.subrange(8, 16) =~= spec_u64_to_le_bytes(id));
    assert(a.subrange(1, 8) =~= seed.subrange(1, 8));
}

} // verus!
