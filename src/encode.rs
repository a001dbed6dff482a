//! Laying out a property tree as node records.
//!
//! Encoding works bottom-up. A node is given the offset (`base`) at which its
//! out-of-line bytes will stand in the output, and returns its own 16-byte
//! record together with those trailing bytes. A nested node places the
//! trailing bytes of its children first, one after another, then the array of
//! their records, and points at that array.

use vstd::prelude::*;
use vstd::utf8::encode_utf8;
use crate::bytes::{pad_to_16, push_u32_le, spec_pad_len, spec_u32_bytes, spec_zeros};
use crate::error::MaterialError;
use crate::node::{lemma_spec_views, spec_views, FloatVal, IntermediateMaterialProperty, NodeView, KIND_FLOAT, KIND_INT, KIND_NESTED, KIND_STRING, MAX_NESTING_DEPTH};
use crate::refs::{spec_tree_reference_flags, tree_reference_flags, ResourceReference, NO_REFERENCE};
use crate::tags::{TAG_TXID, TAG_VALU};

verus! {

/// The bytes of a float vector: each element's bit pattern, little-endian.
pub open spec fn spec_floats_bytes(v: Seq<u32>) -> Seq<u8>
    decreases v.len(),
{
    if v.len() == 0 {
        Seq::empty()
    } else {
        spec_floats_bytes(v.subrange(0, v.len() - 1)) + spec_u32_bytes(v[v.len() - 1])
    }
}

/// The length of the out-of-line bytes of a node.
pub open spec fn spec_trailing_len(n: NodeView) -> nat
    decreases n,
{
    match n {
        NodeView::Text(_, s) => (encode_utf8(s).len() + 1) + spec_pad_len(encode_utf8(s).len() + 1),
        NodeView::Vector(v) => 4 * v.len() + spec_pad_len(4 * v.len()),
        NodeView::Nested(_, c) => spec_children_trailing_len(c) + 16 * c.len(),
        _ => 0,
    }
}

/// The length of the out-of-line bytes of a list of nodes, one after another.
pub open spec fn spec_children_trailing_len(c: Seq<NodeView>) -> nat
    decreases c,
{
    if c.len() == 0 {
        0
    } else {
        spec_children_trailing_len(c.subrange(0, c.len() - 1)) + spec_trailing_len(c[c.len() - 1])
    }
}

/// The reference-table entries that encoding a node appends, in order: one
/// for each texture node that names a texture.
pub open spec fn spec_added_refs(n: NodeView) -> Seq<ResourceReference>
    decreases n,
{
    match n {
        NodeView::TextureID(Some(id)) => seq![
            ResourceReference { resource: id, flags: spec_tree_reference_flags() },
        ],
        NodeView::Nested(_, c) => spec_children_added_refs(c),
        _ => Seq::empty(),
    }
}

/// The reference-table entries that encoding a list of nodes appends.
pub open spec fn spec_children_added_refs(c: Seq<NodeView>) -> Seq<ResourceReference>
    decreases c,
{
    if c.len() == 0 {
        Seq::empty()
    } else {
        spec_children_added_refs(c.subrange(0, c.len() - 1)) + spec_added_refs(c[c.len() - 1])
    }
}

/// A node record from its four fields.
pub open spec fn spec_record_of(code: u32, data: u32, count: u32, kind: u32) -> Seq<u8> {
    spec_u32_bytes(code) + spec_u32_bytes(data) + spec_u32_bytes(count) + spec_u32_bytes(kind)
}

/// The record of a node whose trailing bytes start at `base`, when the
/// reference table holds `nrefs` entries before it is encoded.
pub open spec fn spec_record(base: int, nrefs: int, n: NodeView) -> Seq<u8> {
    match n {
        NodeView::Int(t, v) => spec_record_of(t.spec_code(), v, 1, KIND_INT),
        NodeView::Float(t, v) => spec_record_of(t.spec_code(), v, 1, KIND_FLOAT),
        NodeView::Single(v) => spec_record_of(TAG_VALU, v, 1, KIND_FLOAT),
        NodeView::Vector(v) => spec_record_of(TAG_VALU, base as u32, v.len() as u32, KIND_FLOAT),
        NodeView::Text(t, s) => spec_record_of(
            t.spec_code(),
            base as u32,
            (encode_utf8(s).len() + 1) as u32,
            KIND_STRING,
        ),
        NodeView::TextureID(None) => spec_record_of(TAG_TXID, NO_REFERENCE, 1, KIND_INT),
        NodeView::TextureID(Some(_)) => spec_record_of(TAG_TXID, nrefs as u32, 1, KIND_INT),
        NodeView::Nested(t, c) => spec_record_of(
            t.spec_code(),
            (base + spec_children_trailing_len(c)) as u32,
            c.len() as u32,
            KIND_NESTED,
        ),
    }
}

/// The out-of-line bytes of a node whose trailing bytes start at `base`.
pub open spec fn spec_trailing(base: int, nrefs: int, n: NodeView) -> Seq<u8>
    decreases n,
{
    match n {
        NodeView::Text(_, s) => encode_utf8(s) + seq![0u8] + spec_zeros(
            spec_pad_len(encode_utf8(s).len() + 1),
        ),
        NodeView::Vector(v) => spec_floats_bytes(v) + spec_zeros(spec_pad_len(4 * v.len())),
        NodeView::Nested(_, c) => spec_children_trailing(base, nrefs, c) + spec_children_records(
            base,
            nrefs,
            c,
        ),
        _ => Seq::empty(),
    }
}

/// The trailing bytes of a list of nodes placed one after another from `base`.
pub open spec fn spec_children_trailing(base: int, nrefs: int, c: Seq<NodeView>) -> Seq<u8>
    decreases c,
{
    if c.len() == 0 {
        Seq::empty()
    } else {
        let p = c.subrange(0, c.len() - 1);
        spec_children_trailing(base, nrefs, p) + spec_trailing(
            base + spec_children_trailing_len(p),
            nrefs + spec_children_added_refs(p).len(),
            c[c.len() - 1],
        )
    }
}

/// The records of a list of nodes whose trailing bytes are placed one after
/// another from `base`.
pub open spec fn spec_children_records(base: int, nrefs: int, c: Seq<NodeView>) -> Seq<u8>
    decreases c,
{
    if c.len() == 0 {
        Seq::empty()
    } else {
        let p = c.subrange(0, c.len() - 1);
        spec_children_records(base, nrefs, p) + spec_record(
            base + spec_children_trailing_len(p),
            nrefs + spec_children_added_refs(p).len(),
            c[c.len() - 1],
        )
    }
}

/// How many levels of nested records a node has: none for a leaf, one more
/// than its deepest child for a nested node.
pub open spec fn spec_nesting(n: NodeView) -> nat
    decreases n,
{
    match n {
        NodeView::Nested(_, c) => 1 + spec_children_nesting(c),
        _ => 0,
    }
}

/// The deepest nesting among a list of nodes (none for an empty list).
pub open spec fn spec_children_nesting(c: Seq<NodeView>) -> nat
    decreases c,
{
    if c.len() == 0 {
        0
    } else {
        let a = spec_children_nesting(c.subrange(0, c.len() - 1));
        let b = spec_nesting(c[c.len() - 1]);
        if a >= b {
            a
        } else {
            b
        }
    }
}

/// No node of a list nests deeper than the list's deepest nesting.
pub proof fn lemma_children_nesting(c: Seq<NodeView>, i: int)
    requires
        0 <= i < c.len(),
    ensures
        spec_nesting(c[i]) <= spec_children_nesting(c),
    decreases c.len(),
{
    if i < c.len() - 1 {
        lemma_children_nesting(c.subrange(0, c.len() - 1), i);
    }
}

/// Whether the sizes of a node fit when it is encoded from `base` with a
/// table of `nrefs` entries: every offset fits in 32 bits, and no table
/// index it is given is the sentinel.
pub open spec fn spec_sizes_fit(base: int, nrefs: int, n: NodeView) -> bool {
    base + spec_trailing_len(n) <= u32::MAX && nrefs + spec_added_refs(n).len() <= NO_REFERENCE
}

/// Whether a node can be encoded from `base` with a table of `nrefs`
/// entries: its sizes fit, and it nests no deeper than the decoder follows.
pub open spec fn spec_fits(base: int, nrefs: int, n: NodeView) -> bool {
    spec_sizes_fit(base, nrefs, n) && spec_nesting(n) <= MAX_NESTING_DEPTH
}

proof fn lemma_floats_bytes_len(v: Seq<u32>)
    ensures
        spec_floats_bytes(v).len() == 4 * v.len(),
    decreases v.len(),
{
    if v.len() > 0 {
        lemma_floats_bytes_len(v.subrange(0, v.len() - 1));
    }
}

/// The trailing bytes of a node are as long as `spec_trailing_len` says.
pub proof fn lemma_trailing_len(base: int, nrefs: int, n: NodeView)
    ensures
        spec_trailing(base, nrefs, n).len() == spec_trailing_len(n),
        spec_record(base, nrefs, n).len() == 16,
    decreases n,
{
    match n {
        NodeView::Vector(v) => {
            lemma_floats_bytes_len(v);
        },
        NodeView::Nested(_, c) => {
            lemma_children_trailing_len(base, nrefs, c);
        },
        _ => {},
    }
}

/// The trailing bytes and the records of a list of nodes are as long as
/// `spec_children_trailing_len` and 16 bytes a node say.
pub proof fn lemma_children_trailing_len(base: int, nrefs: int, c: Seq<NodeView>)
    ensures
        spec_children_trailing(base, nrefs, c).len() == spec_children_trailing_len(c),
        spec_children_records(base, nrefs, c).len() == 16 * c.len(),
    decreases c,
{
    if c.len() > 0 {
        let p = c.subrange(0, c.len() - 1);
        lemma_children_trailing_len(base, nrefs, p);
        lemma_trailing_len(
            base + spec_children_trailing_len(p),
            nrefs + spec_children_added_refs(p).len(),
            c[c.len() - 1],
        );
    }
}

/// A prefix of a list of nodes needs no more trailing bytes, and adds no
/// more table entries, than the whole list.
pub proof fn lemma_children_prefix(c: Seq<NodeView>, i: int)
    requires
        0 <= i <= c.len(),
    ensures
        spec_children_trailing_len(c.take(i)) <= spec_children_trailing_len(c),
        spec_children_added_refs(c.take(i)).len() <= spec_children_added_refs(c).len(),
    decreases c.len() - i,
{
    if i < c.len() {
        lemma_children_prefix(c, i + 1);
        assert(c.take(i + 1).subrange(0, i) =~= c.take(i));
    } else {
        assert(c.take(i) =~= c);
    }
}

/// Appends the bytes of `s`.
pub(crate) fn push_bytes(out: &mut Vec<u8>, s: &[u8])
    ensures
        final(out)@ == old(out)@ + s@,
{
    let mut i: usize = 0;
    while i < s.len()
        invariant
            i <= s@.len(),
            out@ == old(out)@ + s@.take(i as int),
        decreases s@.len() - i,
    {
        out.push(s[i]);
        i = i + 1;
        assert(out@ =~= old(out)@ + s@.take(i as int));
    }
    assert(s@.take(s@.len() as int) =~= s@);
}

/// Appends the record of a node from its four fields.
fn push_record(out: &mut Vec<u8>, code: u32, data: u32, count: u32, kind: u32)
    ensures
        final(out)@ == old(out)@ + spec_record_of(code, data, count, kind),
{
    push_u32_le(out, code);
    push_u32_le(out, data);
    push_u32_le(out, count);
    push_u32_le(out, kind);
    assert(final(out)@ =~= old(out)@ + spec_record_of(code, data, count, kind));
}

/// Encodes `node` with its trailing bytes placed at `base`, appending the
/// references that it names to `refs`. Returns the record and the trailing
/// bytes.
fn encode_node(base: u32, refs: &mut Vec<ResourceReference>, node: &IntermediateMaterialProperty) -> (r: (
    Vec<u8>,
    Vec<u8>,
))
    requires
        spec_fits(base as int, old(refs)@.len() as int, node@),
    ensures
        r.0@ == spec_record(base as int, old(refs)@.len() as int, node@),
        r.1@ == spec_trailing(base as int, old(refs)@.len() as int, node@),
        final(refs)@ == old(refs)@ + spec_added_refs(node@),
    decreases node,
{
    let mut record: Vec<u8> = Vec::new();
    let mut trailing: Vec<u8> = Vec::new();
    match node {
        IntermediateMaterialProperty::Int(t, v) => {
            push_record(&mut record, t.code(), *v, 1, KIND_INT);
        },
        IntermediateMaterialProperty::Float(t, v) => {
            push_record(&mut record, t.code(), *v, 1, KIND_FLOAT);
        },
        IntermediateMaterialProperty::Value(FloatVal::Single(v)) => {
            push_record(&mut record, TAG_VALU, *v, 1, KIND_FLOAT);
        },
        IntermediateMaterialProperty::Value(FloatVal::Vector(v)) => {
            proof {
                lemma_floats_bytes_len(v@);
            }
            push_record(&mut record, TAG_VALU, base, v.len() as u32, KIND_FLOAT);
            let mut i: usize = 0;
            while i < v.len()
                invariant
                    i <= v@.len(),
                    trailing@ == spec_floats_bytes(v@.take(i as int)),
                decreases v@.len() - i,
            {
                push_u32_le(&mut trailing, v[i]);
                proof {
                    assert(v@.take(i + 1).subrange(0, i as int) =~= v@.take(i as int));
                }
                i = i + 1;
            }
            assert(v@.take(v@.len() as int) =~= v@);
            pad_to_16(&mut trailing);
        },
        IntermediateMaterialProperty::Text(t, s) => {
            let b = s.as_str().as_bytes();
            push_record(&mut record, t.code(), base, (b.len() + 1) as u32, KIND_STRING);
            push_bytes(&mut trailing, b);
            trailing.push(0u8);
            pad_to_16(&mut trailing);
        },
        IntermediateMaterialProperty::TextureID(None) => {
            push_record(&mut record, TAG_TXID, NO_REFERENCE, 1, KIND_INT);
        },
        IntermediateMaterialProperty::TextureID(Some(id)) => {
            let index = refs.len() as u32;
            refs.push(ResourceReference { resource: *id, flags: tree_reference_flags() });
            push_record(&mut record, TAG_TXID, index, 1, KIND_INT);
            assert(final(refs)@ =~= old(refs)@ + spec_added_refs(node@));
        },
        IntermediateMaterialProperty::Nested(t, children) => {
            let ghost cv = spec_views(children@);
            let ghost n0 = refs@.len() as int;
            proof {
                lemma_spec_views(children@);
                lemma_children_trailing_len(base as int, n0, cv);
            }
            let mut records: Vec<u8> = Vec::new();
            let mut i: usize = 0;
            while i < children.len()
                invariant
                    i <= children@.len(),
                    *node == IntermediateMaterialProperty::Nested(*t, *children),
                    cv == spec_views(children@),
                    cv.len() == children@.len(),
                    forall|j: int| 0 <= j < children@.len() ==> #[trigger] cv[j] == children@[j]@,
                    n0 == old(refs)@.len(),
                    spec_fits(base as int, n0, NodeView::Nested(*t, cv)),
                    trailing@ == spec_children_trailing(base as int, n0, cv.take(i as int)),
                    records@ == spec_children_records(base as int, n0, cv.take(i as int)),
                    refs@ == old(refs)@ + spec_children_added_refs(cv.take(i as int)),
                    trailing@.len() == spec_children_trailing_len(cv.take(i as int)),
                decreases children@.len() - i,
            {
                let ghost p = cv.take(i as int);
                let ghost q = cv.take(i + 1);
                proof {
                    assert(q.subrange(0, i as int) =~= p);
                    assert(q[i as int] == cv[i as int]);
                    lemma_children_prefix(cv, i + 1);
                    lemma_children_trailing_len(base as int, n0, q);
                }
                let child = &children[i];
                proof {
                    lemma_children_nesting(cv, i as int);
                    assert(decreases_to!(*node => (*node)->Nested_1));
                    assert(decreases_to!(*children => children[i as int]));
                }
                let (rec, tr) = encode_node(base + trailing.len() as u32, refs, child);
                push_bytes(&mut records, rec.as_slice());
                push_bytes(&mut trailing, tr.as_slice());
                i = i + 1;
            }
            assert(cv.take(children@.len() as int) =~= cv);
            push_record(
                &mut record,
                t.code(),
                base + trailing.len() as u32,
                children.len() as u32,
                KIND_NESTED,
            );
            push_bytes(&mut trailing, records.as_slice());
        },
    }
    proof {
        lemma_trailing_len(base as int, old(refs)@.len() as int, node@);
    }
    (record, trailing)
}

/// `x`, or `u64::MAX` where `x` is larger.
pub open spec fn spec_cap(x: int) -> u64 {
    if x > u64::MAX {
        u64::MAX
    } else {
        x as u64
    }
}

/// Whether a node has out-of-line bytes: strings, float vectors and nested
/// records do.
pub open spec fn spec_has_trailing(n: NodeView) -> bool {
    n is Text || n is Vector || n is Nested
}

/// The length of a node's trailing bytes and the number of table entries it
/// adds, each capped at `u64::MAX`.
fn layout_size(node: &IntermediateMaterialProperty) -> (r: (u64, u64))
    ensures
        r.0 == spec_cap(spec_trailing_len(node@) as int),
        r.1 == spec_cap(spec_added_refs(node@).len() as int),
    decreases node,
{
    match node {
        IntermediateMaterialProperty::Text(_, s) => {
            let l = (s.as_str().as_bytes().len() as u64).saturating_add(1);
            let pad = (16 - l % 16) % 16;
            (l.saturating_add(pad), 0)
        },
        IntermediateMaterialProperty::Value(FloatVal::Vector(v)) => {
            let l = v.len() as u64;
            let four = l.saturating_add(l).saturating_add(l).saturating_add(l);
            let pad = (16 - four % 16) % 16;
            (four.saturating_add(pad), 0)
        },
        IntermediateMaterialProperty::TextureID(Some(_)) => (0, 1),
        IntermediateMaterialProperty::Nested(_, children) => {
            let ghost cv = spec_views(children@);
            proof {
                lemma_spec_views(children@);
            }
            let mut len: u64 = 0;
            let mut added: u64 = 0;
            let mut i: usize = 0;
            while i < children.len()
                invariant
                    i <= children@.len(),
                    *node == IntermediateMaterialProperty::Nested((*node)->Nested_0, *children),
                    cv.len() == children@.len(),
                    forall|j: int| 0 <= j < children@.len() ==> #[trigger] cv[j] == children@[j]@,
                    len == spec_cap(spec_children_trailing_len(cv.take(i as int)) as int),
                    added == spec_cap(spec_children_added_refs(cv.take(i as int)).len() as int),
                decreases children@.len() - i,
            {
                proof {
                    assert(cv.take(i + 1).subrange(0, i as int) =~= cv.take(i as int));
                    assert(decreases_to!(*node => (*node)->Nested_1));
                    assert(decreases_to!(*children => children[i as int]));
                }
                let (l, a) = layout_size(&children[i]);
                len = len.saturating_add(l);
                added = added.saturating_add(a);
                i = i + 1;
            }
            assert(cv.take(children@.len() as int) =~= cv);
            let l = children.len() as u64;
            let mut records: u64 = 0;
            let mut k: u64 = 0;
            while k < 16
                invariant
                    k <= 16,
                    records == spec_cap(k * l),
                decreases 16 - k,
            {
                proof {
                    assert((k + 1) * l == k * l + l) by (nonlinear_arith);
                    assert(k * l >= 0) by (nonlinear_arith);
                }
                records = records.saturating_add(l);
                k = k + 1;
            }
            (len.saturating_add(records), added)
        },
        _ => (0, 0),
    }
}

/// Whether `node` nests no deeper than `limit` levels.
fn nests_within(node: &IntermediateMaterialProperty, limit: u32) -> (r: bool)
    ensures
        r == (spec_nesting(node@) <= limit),
    decreases node,
{
    match node {
        IntermediateMaterialProperty::Nested(_, children) => {
            if limit == 0 {
                return false;
            }
            let ghost cv = spec_views(children@);
            proof {
                lemma_spec_views(children@);
            }
            let mut i: usize = 0;
            assert(cv.take(0) =~= Seq::<NodeView>::empty());
            while i < children.len()
                invariant
                    i <= children@.len(),
                    limit > 0,
                    *node == IntermediateMaterialProperty::Nested((*node)->Nested_0, *children),
                    cv.len() == children@.len(),
                    cv == spec_views(children@),
                    forall|j: int| 0 <= j < children@.len() ==> #[trigger] cv[j] == children@[j]@,
                    spec_children_nesting(cv.take(i as int)) <= limit - 1,
                decreases children@.len() - i,
            {
                proof {
                    assert(cv.take(i + 1).subrange(0, i as int) =~= cv.take(i as int));
                    assert(decreases_to!(*node => (*node)->Nested_1));
                    assert(decreases_to!(*children => children[i as int]));
                }
                if !nests_within(&children[i], limit - 1) {
                    proof {
                        lemma_prefix_nesting(cv, i + 1);
                    }
                    return false;
                }
                i = i + 1;
            }
            assert(cv.take(children@.len() as int) =~= cv);
            true
        },
        _ => true,
    }
}

proof fn lemma_prefix_nesting(c: Seq<NodeView>, j: int)
    requires
        0 <= j <= c.len(),
    ensures
        spec_children_nesting(c.take(j)) <= spec_children_nesting(c),
    decreases c.len() - j,
{
    if j < c.len() {
        lemma_prefix_nesting(c, j + 1);
        assert(c.take(j + 1).subrange(0, j) =~= c.take(j));
    } else {
        assert(c.take(j) =~= c);
    }
}

/// Encodes `property` with its out-of-line bytes placed at
/// `all_resources_offset`, appending the references that it names to
/// `mati_references`. Returns the node's record and, for strings, float
/// vectors and nested nodes, its out-of-line bytes. Fails, leaving the
/// table as it was, with `InvalidNumber` where an offset would not fit in 32
/// bits or a table index would reach the sentinel, and otherwise with
/// `NestingTooDeep` where the tree nests deeper than the decoder follows.
pub fn generate_property(
    all_resources_offset: u32,
    mati_references: &mut Vec<ResourceReference>,
    property: IntermediateMaterialProperty,
) -> (r: Result<(Vec<u8>, Option<Vec<u8>>), MaterialError>)
    ensures
        r is Ok <==> spec_fits(all_resources_offset as int, old(mati_references)@.len() as int, property@),
        r matches Ok((record, trailing)) ==> {
            &&& record@ == spec_record(all_resources_offset as int, old(mati_references)@.len() as int, property@)
            &&& (trailing is Some <==> spec_has_trailing(property@))
            &&& (trailing matches Some(t) ==> t@ == spec_trailing(
                all_resources_offset as int,
                old(mati_references)@.len() as int,
                property@,
            ))
            &&& final(mati_references)@ == old(mati_references)@ + spec_added_refs(property@)
        },
        r is Err ==> final(mati_references)@ == old(mati_references)@,
        r matches Err(e) ==> e == if !spec_sizes_fit(
            all_resources_offset as int,
            old(mati_references)@.len() as int,
            property@,
        ) {
            MaterialError::InvalidNumber
        } else {
            MaterialError::NestingTooDeep
        },
{
    let (len, added) = layout_size(&property);
    let nrefs = mati_references.len() as u64;
    if len > (u32::MAX - all_resources_offset) as u64 || added > NO_REFERENCE as u64 || nrefs > NO_REFERENCE as u64 - added {
        return Err(MaterialError::InvalidNumber);
    }
    if !nests_within(&property, MAX_NESTING_DEPTH) {
        return Err(MaterialError::NestingTooDeep);
    }
    let (record, trailing) = encode_node(all_resources_offset, mati_references, &property);
    let has_trailing = match &property {
        IntermediateMaterialProperty::Text(..) => true,
        IntermediateMaterialProperty::Value(FloatVal::Vector(_)) => true,
        IntermediateMaterialProperty::Nested(..) => true,
        _ => false,
    };
    if has_trailing {
        Ok((record, Some(trailing)))
    } else {
        Ok((record, None))
    }
}

} // verus!
