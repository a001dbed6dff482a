//! Material instances (MATI): the header and the property tree together.
//!
//! Layout: a `u32` offset to the header, padded to 16 bytes; the out-of-line
//! bytes of the property tree; the record of its root instance node; the
//! material type's name, zero-terminated and padded to 16 bytes; then the
//! header: offset of the type name, class table index, class flags, instance
//! flags, descriptor table index, eight reserved bytes, offset of the root
//! node, the constant 3 and twelve zero bytes.

use vstd::prelude::*;
use crate::roundtrip::{lemma_encoded_node_decodes, lemma_text_end, lemma_u32_at, spec_node_wf};
use crate::vocab::lemma_material_type_name_bytes;
use crate::bytes::lemma_u32_bytes_round_trip;
use crate::encode::lemma_trailing_len;
use vstd::utf8::{decode_utf8, encode_utf8, valid_utf8};
use crate::bytes::{pad_to_16, push_u32_le, read_u32_le, spec_pad_len, spec_u32_bytes, spec_u32_le, spec_zeros};
use crate::encode::{generate_property, spec_added_refs, spec_fits, spec_record, spec_trailing, spec_trailing_len};
use crate::error::{MaterialError, MaterialErrorView};
use crate::flags::{ClassFlags, InstanceFlags};
use crate::mapper::{lemma_binder_round_trip, spec_binder_wf, lemma_binder_needs_culling_mode, lemma_property_nodes_error_stays, spec_property_node, spec_property_nodes, parse_instance, spec_find, spec_missing, spec_parse_instance, spec_req_text, spec_to_intermediate, to_intermediate, Wanted};
use crate::model::{BinderView, PropertyView, MaterialInstance, MaterialInstanceView};
use crate::node::{parse_material_property, spec_c_string, spec_decode_node, spec_views, IntermediateMaterialProperty, NodeView, MAX_NESTING_DEPTH};
use crate::refs::{default_reference, spec_default_flags, ReferenceFlags, ReferenceType, lookup_reference, spec_lookup, spec_tree_reference_flags, tree_reference_flags, ResourceReference, RuntimeID, NO_REFERENCE};
use crate::tags::{NestedTag, TextTag};
use crate::vocab::MaterialType;

verus! {

/// The fixed header fields of a material instance.
pub struct HeaderView {
    pub type_offset: u32,
    pub class_index: u32,
    pub class_flags: u32,
    pub instance_flags: u32,
    pub descriptor_index: u32,
    pub instance_offset: u32,
}

/// The header of `buf`, if it lies within it.
pub open spec fn spec_header(buf: Seq<u8>) -> Option<HeaderView> {
    if buf.len() < 4 {
        None
    } else {
        let h = spec_u32_le(buf, 0) as int;
        if h + 32 > buf.len() {
            None
        } else {
            Some(
                HeaderView {
                    type_offset: spec_u32_le(buf, h),
                    class_index: spec_u32_le(buf, h + 4),
                    class_flags: spec_u32_le(buf, h + 8),
                    instance_flags: spec_u32_le(buf, h + 12),
                    descriptor_index: spec_u32_le(buf, h + 16),
                    instance_offset: spec_u32_le(buf, h + 28),
                },
            )
        }
    }
}

/// The material instance that `buf` holds, with identifier `id` and
/// reference table `refs`, or the first error in reading it.
#[verifier::opaque]
pub open spec fn spec_parse_mati(buf: Seq<u8>, id: RuntimeID, refs: Seq<ResourceReference>) -> Result<
    MaterialInstanceView,
    MaterialErrorView,
> {
    match spec_header(buf) {
        None => Err(MaterialErrorView::Other(MaterialError::Truncated)),
        Some(h) => match spec_c_string(buf, h.type_offset as int) {
            None => Err(MaterialErrorView::Other(MaterialError::Truncated)),
            Some(type_bytes) => if !valid_utf8(type_bytes) {
                Err(MaterialErrorView::Other(MaterialError::InvalidString))
            } else {
                match spec_decode_node(buf, refs, h.instance_offset as int, MAX_NESTING_DEPTH as nat) {
                    Err(e) => Err(e@),
                    Ok(root) => match spec_parse_instance(root) {
                        Err(e) => Err(e),
                        Ok((name, tags, binder)) => match MaterialType::spec_from_name(decode_utf8(type_bytes)) {
                            None => Err(MaterialErrorView::InvalidMaterialType(decode_utf8(type_bytes))),
                            Some(material_type) => match spec_lookup(refs, h.class_index) {
                                None => Err(MaterialErrorView::Other(MaterialError::InvalidDependency(h.class_index as usize))),
                                Some(class) => match spec_lookup(refs, h.descriptor_index) {
                                    None => Err(
                                        MaterialErrorView::Other(MaterialError::InvalidDependency(h.descriptor_index as usize)),
                                    ),
                                    Some(descriptor) => Ok(
                                        MaterialInstanceView {
                                            id,
                                            name,
                                            material_type,
                                            tags,
                                            class,
                                            descriptor,
                                            class_flags: ClassFlags::spec_from_bits(h.class_flags),
                                            instance_flags: InstanceFlags::spec_from_bits(h.instance_flags),
                                            binder,
                                        },
                                    ),
                                },
                            },
                        },
                    },
                }
            },
        },
    }
}

/// The root node of a material instance's property tree.
pub open spec fn spec_instance_node(name: Seq<char>, tags: Seq<char>, binder: NodeView) -> NodeView {
    NodeView::Nested(
        NestedTag::Instance,
        seq![NodeView::Text(TextTag::Name, name), NodeView::Text(TextTag::Tags, tags), binder],
    )
}

/// The reference-table entry, with `flags`, for a class or descriptor that
/// is there.
pub open spec fn spec_optional_ref(r: Option<RuntimeID>, flags: ReferenceFlags) -> Seq<ResourceReference> {
    match r {
        Some(id) => seq![ResourceReference { resource: id, flags }],
        None => Seq::empty(),
    }
}

/// The table index for a class or descriptor, given the table's length
/// after it was appended.
pub open spec fn spec_optional_index(r: Option<RuntimeID>, len: int) -> u32 {
    match r {
        Some(_) => (len - 1) as u32,
        None => NO_REFERENCE,
    }
}

/// The offset at which the header of an encoding stands, given the root
/// node and the material type's name.
pub open spec fn spec_header_offset(root: NodeView, type_text: Seq<char>) -> int {
    let t = 16 + spec_trailing_len(root) + 16 + encode_utf8(type_text).len() + 1;
    t + spec_pad_len(t as nat) as int
}

/// Whether a material instance with this root node can be encoded: every
/// offset fits in 32 bits and no table index reaches the sentinel.
pub open spec fn spec_encodable(m: MaterialInstanceView, root: NodeView) -> bool {
    &&& spec_fits(16, 0, root)
    &&& spec_header_offset(root, m.material_type.spec_name()) + 48 <= u32::MAX
    &&& spec_added_refs(root).len() + spec_optional_ref(m.class, spec_default_flags(ReferenceType::Normal)).len() + spec_optional_ref(m.descriptor, spec_tree_reference_flags()).len()
        <= NO_REFERENCE
}

/// The bytes of an encoding from its parts: the out-of-line bytes of the
/// tree, which start at offset 16, its root record, and the header fields.
pub open spec fn spec_mati_bytes(
    header_offset: u32,
    trailing: Seq<u8>,
    record: Seq<u8>,
    type_bytes: Seq<u8>,
    class_index: u32,
    class_flags: u32,
    instance_flags: u32,
    descriptor_index: u32,
) -> Seq<u8> {
    spec_u32_bytes(header_offset) + spec_zeros(12) + trailing + record + type_bytes + seq![0u8] + spec_zeros(
        spec_pad_len((16 + trailing.len() + 16 + type_bytes.len() + 1) as nat),
    ) + spec_u32_bytes((16 + trailing.len() + 16) as u32) + spec_u32_bytes(class_index) + spec_u32_bytes(
        class_flags,
    ) + spec_u32_bytes(instance_flags) + spec_u32_bytes(descriptor_index) + spec_zeros(8) + spec_u32_bytes(
        (16 + trailing.len()) as u32,
    ) + spec_u32_bytes(3) + spec_zeros(12)
}

/// Writes the bytes that `spec_mati_bytes` describes.
fn write_mati(
    header_offset: u32,
    trailing: &[u8],
    record: &[u8],
    type_bytes: &[u8],
    class_index: u32,
    class_flags: u32,
    instance_flags: u32,
    descriptor_index: u32,
) -> (out: Vec<u8>)
    requires
        record@.len() == 16,
        trailing@.len() + 32 <= u32::MAX,
    ensures
        out@ == spec_mati_bytes(
            header_offset,
            trailing@,
            record@,
            type_bytes@,
            class_index,
            class_flags,
            instance_flags,
            descriptor_index,
        ),
{
    let mut out: Vec<u8> = Vec::new();
    push_u32_le(&mut out, header_offset);
    push_zeros(&mut out, 12);
    crate::encode::push_bytes(&mut out, trailing);
    crate::encode::push_bytes(&mut out, record);
    crate::encode::push_bytes(&mut out, type_bytes);
    out.push(0u8);
    pad_to_16(&mut out);
    push_u32_le(&mut out, (16 + trailing.len() + 16) as u32);
    push_u32_le(&mut out, class_index);
    push_u32_le(&mut out, class_flags);
    push_u32_le(&mut out, instance_flags);
    push_u32_le(&mut out, descriptor_index);
    push_zeros(&mut out, 8);
    push_u32_le(&mut out, (16 + trailing.len()) as u32);
    push_u32_le(&mut out, 3);
    push_zeros(&mut out, 12);
    assert(out@ =~= spec_mati_bytes(
        header_offset,
        trailing@,
        record@,
        type_bytes@,
        class_index,
        class_flags,
        instance_flags,
        descriptor_index,
    ));
    out
}

/// The bytes and the reference table of the encoding of `m`.
#[verifier::opaque]
pub open spec fn spec_generate(m: MaterialInstanceView) -> Result<(Seq<u8>, Seq<ResourceReference>), MaterialErrorView> {
    match spec_to_intermediate(m.binder) {
        Err(e) => Err(e),
        Ok(b) => {
            let root = spec_instance_node(m.name, m.tags, b);
            if !spec_encodable(m, root) {
                Err(MaterialErrorView::Other(MaterialError::InvalidNumber))
            } else {
                let tree_refs = spec_added_refs(root);
                let with_class = tree_refs + spec_optional_ref(m.class, spec_default_flags(ReferenceType::Normal));
                let all_refs = with_class + spec_optional_ref(m.descriptor, spec_tree_reference_flags());
                let trailing = spec_trailing(16, 0, root);
                Ok(
                    (
                        spec_mati_bytes(
                            spec_header_offset(root, m.material_type.spec_name()) as u32,
                            trailing,
                            spec_record(16, 0, root),
                            encode_utf8(m.material_type.spec_name()),
                            spec_optional_index(m.class, with_class.len() as int),
                            m.class_flags.spec_bits(),
                            m.instance_flags.spec_bits(),
                            spec_optional_index(m.descriptor, all_refs.len() as int),
                        ),
                        all_refs,
                    ),
                )
            }
        },
    }
}

/// Once the header, the type name and the property tree of a material
/// instance read, its class and descriptor indices decide as follows: the
/// sentinel gives no reference, an index into the table gives the identifier
/// there, and any other index is an addressing error.
pub proof fn lemma_mati_references(buf: Seq<u8>, id: RuntimeID, refs: Seq<ResourceReference>)
    requires
        spec_header(buf) is Some,
        spec_c_string(buf, spec_header(buf)->0.type_offset as int) is Some,
        valid_utf8(spec_c_string(buf, spec_header(buf)->0.type_offset as int)->0),
        MaterialType::spec_from_name(decode_utf8(spec_c_string(buf, spec_header(buf)->0.type_offset as int)->0)) is Some,
        spec_decode_node(buf, refs, spec_header(buf)->0.instance_offset as int, MAX_NESTING_DEPTH as nat) is Ok,
        spec_parse_instance(
            spec_decode_node(buf, refs, spec_header(buf)->0.instance_offset as int, MAX_NESTING_DEPTH as nat)->Ok_0,
        ) is Ok,
    ensures
        ({
            let h = spec_header(buf)->0;
            let r = spec_parse_mati(buf, id, refs);
            &&& h.class_index != NO_REFERENCE && h.class_index >= refs.len() ==> r == Err::<
                MaterialInstanceView,
                MaterialErrorView,
            >(MaterialErrorView::Other(MaterialError::InvalidDependency(h.class_index as usize)))
            &&& spec_lookup(refs, h.class_index) is Some && h.descriptor_index != NO_REFERENCE
                && h.descriptor_index >= refs.len() ==> r == Err::<MaterialInstanceView, MaterialErrorView>(
                MaterialErrorView::Other(MaterialError::InvalidDependency(h.descriptor_index as usize)),
            )
            &&& spec_lookup(refs, h.class_index) is Some && spec_lookup(refs, h.descriptor_index) is Some ==> {
                &&& r is Ok
                &&& (h.class_index == NO_REFERENCE ==> r->Ok_0.class is None)
                &&& (h.descriptor_index == NO_REFERENCE ==> r->Ok_0.descriptor is None)
                &&& (h.class_index != NO_REFERENCE && h.class_index < refs.len() ==> r->Ok_0.class == Some(refs[h.class_index as int].resource))
                &&& (h.descriptor_index != NO_REFERENCE && h.descriptor_index < refs.len() ==> r->Ok_0.descriptor == Some(
                    refs[h.descriptor_index as int].resource,
                ))
            }
        }),
{
    reveal(spec_parse_mati);
    let h = spec_header(buf)->0;
    assert(spec_header(buf) == Some(h));
    let tb = spec_c_string(buf, h.type_offset as int)->0;
    assert(spec_c_string(buf, h.type_offset as int) == Some(tb));
    let root = spec_decode_node(buf, refs, h.instance_offset as int, MAX_NESTING_DEPTH as nat)->Ok_0;
    assert(spec_decode_node(buf, refs, h.instance_offset as int, MAX_NESTING_DEPTH as nat) == Ok::<
        NodeView,
        MaterialError,
    >(root));
    let parts = spec_parse_instance(root)->Ok_0;
    assert(spec_parse_instance(root) == Ok::<(Seq<char>, Seq<char>, BinderView), MaterialErrorView>(parts));
    let mt = MaterialType::spec_from_name(decode_utf8(tb))->0;
    assert(MaterialType::spec_from_name(decode_utf8(tb)) == Some(mt));
}

/// Encoding a material instance whose `k`-th property is a float vector of
/// other than two, three or four elements, and whose earlier properties all
/// encode, fails as a vector of unsupported arity.
pub proof fn lemma_generate_vector_arity(m: MaterialInstanceView, k: int)
    requires
        0 <= k < m.binder.properties.len(),
        m.binder.properties[k].1 is Vector,
        !(2 <= m.binder.properties[k].1->Vector_value.len() <= 4),
        forall|j: int| 0 <= j < k ==> #[trigger] spec_property_node(m.binder.properties[j].0, m.binder.properties[j].1) is Ok,
    ensures
        spec_generate(m) == Err::<(Seq<u8>, Seq<ResourceReference>), MaterialErrorView>(
            MaterialErrorView::Other(MaterialError::InvalidVector),
        ),
{
    reveal(spec_generate);
    let s = m.binder.properties;
    lemma_property_nodes_prefix_ok(s, k);
    assert(s.take(k + 1).subrange(0, k) =~= s.take(k));
    assert(s.take(k + 1)[k] == s[k]);
    lemma_property_nodes_error_stays(s, k + 1, MaterialErrorView::Other(MaterialError::InvalidVector));
}

proof fn lemma_property_nodes_prefix_ok(s: Seq<(Seq<char>, PropertyView)>, k: int)
    requires
        0 <= k <= s.len(),
        forall|j: int| 0 <= j < k ==> #[trigger] spec_property_node(s[j].0, s[j].1) is Ok,
    ensures
        spec_property_nodes(s.take(k)) is Ok,
    decreases k,
{
    if k > 0 {
        lemma_property_nodes_prefix_ok(s, k - 1);
        assert(s.take(k).subrange(0, k - 1) =~= s.take(k - 1));
        assert(s.take(k)[k - 1] == s[k - 1]);
    }
}

/// A binder that reads back as itself, written with a name and tags as the
/// root of a property tree, reads back as the same name, tags and binder.
pub proof fn lemma_instance_node_round_trip(name: Seq<char>, tags: Seq<char>, b: BinderView)
    requires
        spec_binder_wf(b),
    ensures
        spec_to_intermediate(b) is Ok,
        spec_parse_instance(spec_instance_node(name, tags, spec_to_intermediate(b)->Ok_0)) == Ok::<
            (Seq<char>, Seq<char>, BinderView),
            MaterialErrorView,
        >((name, tags, b)),
{
    lemma_binder_round_trip(b);
    reveal_with_fuel(crate::mapper::spec_find_from, 4);
}

/// Whether a material instance reads back as itself once encoded: its
/// binder does (see `spec_binder_wf`), and the strings of its property tree
/// hold no zero byte.
pub open spec fn spec_instance_wf(m: MaterialInstanceView) -> bool {
    &&& spec_binder_wf(m.binder)
    &&& spec_node_wf(spec_instance_node(m.name, m.tags, spec_to_intermediate(m.binder)->Ok_0))
}

proof fn lemma_mati_body(
    h: u32,
    tr: Seq<u8>,
    rec: Seq<u8>,
    tb: Seq<u8>,
    ci: u32,
    cf: u32,
    inf: u32,
    di: u32,
)
    requires
        rec.len() == 16,
        h == 32 + tr.len() + tb.len() + 1 + spec_pad_len((32 + tr.len() + tb.len() + 1) as nat),
        h + 48 <= u32::MAX,
    ensures
        ({
            let bytes = spec_mati_bytes(h, tr, rec, tb, ci, cf, inf, di);
            let tl = tr.len() as int;
            &&& bytes.len() == h + 48
            &&& bytes.subrange(0, 4) == spec_u32_bytes(h)
            &&& bytes.subrange(16, 16 + tl) == tr
            &&& bytes.subrange(16 + tl, 32 + tl) == rec
            &&& bytes.subrange(32 + tl, 32 + tl + tb.len()) == tb
            &&& bytes[32 + tl + tb.len()] == 0
            &&& bytes.subrange(h as int, h + 4) == spec_u32_bytes((32 + tl) as u32)
            &&& bytes.subrange(h + 4, h + 8) == spec_u32_bytes(ci)
            &&& bytes.subrange(h + 8, h + 12) == spec_u32_bytes(cf)
            &&& bytes.subrange(h + 12, h + 16) == spec_u32_bytes(inf)
            &&& bytes.subrange(h + 16, h + 20) == spec_u32_bytes(di)
            &&& bytes.subrange(h + 28, h + 32) == spec_u32_bytes((16 + tl) as u32)
        }),
{
    let bytes = spec_mati_bytes(h, tr, rec, tb, ci, cf, inf, di);
    let tl = tr.len() as int;
    lemma_u32_bytes_round_trip(h);
    lemma_u32_bytes_round_trip((32 + tl) as u32);
    lemma_u32_bytes_round_trip(ci);
    lemma_u32_bytes_round_trip(cf);
    lemma_u32_bytes_round_trip(inf);
    lemma_u32_bytes_round_trip(di);
    lemma_u32_bytes_round_trip((16 + tl) as u32);
    lemma_u32_bytes_round_trip(3);
    assert(bytes.len() == h + 48);
    assert(bytes.subrange(0, 4) =~= spec_u32_bytes(h));
    assert(bytes.subrange(16, 16 + tl) =~= tr);
    assert(bytes.subrange(16 + tl, 32 + tl) =~= rec);
    assert(bytes.subrange(32 + tl, 32 + tl + tb.len()) =~= tb);
    assert(bytes.subrange(h as int, h + 4) =~= spec_u32_bytes((32 + tl) as u32));
    assert(bytes.subrange(h + 4, h + 8) =~= spec_u32_bytes(ci));
    assert(bytes.subrange(h + 8, h + 12) =~= spec_u32_bytes(cf));
    assert(bytes.subrange(h + 12, h + 16) =~= spec_u32_bytes(inf));
    assert(bytes.subrange(h + 16, h + 20) =~= spec_u32_bytes(di));
    assert(bytes.subrange(h + 28, h + 32) =~= spec_u32_bytes((16 + tl) as u32));
}

proof fn lemma_mati_header(
    h: u32,
    tr: Seq<u8>,
    rec: Seq<u8>,
    tb: Seq<u8>,
    ci: u32,
    cf: u32,
    inf: u32,
    di: u32,
)
    requires
        rec.len() == 16,
        h == 32 + tr.len() + tb.len() + 1 + spec_pad_len((32 + tr.len() + tb.len() + 1) as nat),
        h + 48 <= u32::MAX,
        forall|j: int| 0 <= j < tb.len() ==> #[trigger] tb[j] != 0,
    ensures
        ({
            let bytes = spec_mati_bytes(h, tr, rec, tb, ci, cf, inf, di);
            let tl = tr.len() as int;
            &&& spec_header(bytes) == Some(
                HeaderView {
                    type_offset: (32 + tl) as u32,
                    class_index: ci,
                    class_flags: cf,
                    instance_flags: inf,
                    descriptor_index: di,
                    instance_offset: (16 + tl) as u32,
                },
            )
            &&& spec_c_string(bytes, 32 + tl) == Some(tb)
            &&& bytes.len() == h + 48
            &&& bytes.subrange(16, 16 + tl) == tr
            &&& bytes.subrange(16 + tl, 32 + tl) == rec
        }),
{
    let bytes = spec_mati_bytes(h, tr, rec, tb, ci, cf, inf, di);
    let tl = tr.len() as int;
    let to = 32 + tl;
    lemma_mati_body(h, tr, rec, tb, ci, cf, inf, di);
    lemma_u32_at(bytes, 0, h);
    lemma_u32_at(bytes, h as int, to as u32);
    lemma_u32_at(bytes, h + 4, ci);
    lemma_u32_at(bytes, h + 8, cf);
    lemma_u32_at(bytes, h + 12, inf);
    lemma_u32_at(bytes, h + 16, di);
    lemma_u32_at(bytes, h + 28, (16 + tl) as u32);
    assert forall|j: int| to <= j < to + tb.len() implies bytes[j] != 0 by {
        assert(bytes[j] == bytes.subrange(to, to + tb.len())[j - to]);
    }
    lemma_text_end(bytes, to, to + tb.len());
}

/// The root node of the property tree that encoding `m` writes.
#[verifier::opaque]
pub open spec fn spec_mati_root(m: MaterialInstanceView) -> NodeView {
    spec_instance_node(m.name, m.tags, spec_to_intermediate(m.binder)->Ok_0)
}

/// The reference table up to the class that encoding `m` writes.
#[verifier::opaque]
pub open spec fn spec_mati_with_class(m: MaterialInstanceView) -> Seq<ResourceReference> {
    spec_added_refs(spec_mati_root(m)) + spec_optional_ref(m.class, spec_default_flags(ReferenceType::Normal))
}

/// The reference table that encoding `m` writes.
#[verifier::opaque]
pub open spec fn spec_mati_refs(m: MaterialInstanceView) -> Seq<ResourceReference> {
    spec_mati_with_class(m) + spec_optional_ref(m.descriptor, spec_tree_reference_flags())
}

/// The bytes that encoding `m` writes.
#[verifier::opaque]
pub open spec fn spec_mati_encoding(m: MaterialInstanceView) -> Seq<u8> {
    let root = spec_mati_root(m);
    spec_mati_bytes(
        spec_header_offset(root, m.material_type.spec_name()) as u32,
        spec_trailing(16, 0, root),
        spec_record(16, 0, root),
        encode_utf8(m.material_type.spec_name()),
        spec_optional_index(m.class, spec_mati_with_class(m).len() as int),
        m.class_flags.spec_bits(),
        m.instance_flags.spec_bits(),
        spec_optional_index(m.descriptor, spec_mati_refs(m).len() as int),
    )
}

proof fn lemma_generate_is(m: MaterialInstanceView)
    requires
        spec_generate(m) is Ok,
    ensures
        spec_to_intermediate(m.binder) is Ok,
        spec_encodable(m, spec_mati_root(m)),
        spec_generate(m) == Ok::<(Seq<u8>, Seq<ResourceReference>), MaterialErrorView>(
            (spec_mati_encoding(m), spec_mati_refs(m)),
        ),
{
    reveal(spec_generate);
    reveal(spec_mati_encoding);
    reveal(spec_mati_refs);
    reveal(spec_mati_with_class);
    reveal(spec_mati_root);
}

proof fn lemma_mati_layout(m: MaterialInstanceView)
    requires
        spec_to_intermediate(m.binder) is Ok,
        spec_encodable(m, spec_mati_root(m)),
    ensures
        ({
            let root = spec_mati_root(m);
            let bytes = spec_mati_encoding(m);
            let tl = spec_trailing_len(root) as int;
            &&& spec_header(bytes) == Some(
                HeaderView {
                    type_offset: (32 + tl) as u32,
                    class_index: spec_optional_index(m.class, spec_mati_with_class(m).len() as int),
                    class_flags: m.class_flags.spec_bits(),
                    instance_flags: m.instance_flags.spec_bits(),
                    descriptor_index: spec_optional_index(m.descriptor, spec_mati_refs(m).len() as int),
                    instance_offset: (16 + tl) as u32,
                },
            )
            &&& spec_c_string(bytes, 32 + tl) == Some(encode_utf8(m.material_type.spec_name()))
            &&& bytes.len() >= 32 + tl
            &&& bytes.subrange(16, 16 + tl) == spec_trailing(16, 0, root)
            &&& bytes.subrange(16 + tl, 32 + tl) == spec_record(16, 0, root)
        }),
{
    reveal(spec_mati_encoding);
    let root = spec_mati_root(m);
    lemma_trailing_len(16, 0, root);
    lemma_material_type_name_bytes(m.material_type);
    lemma_mati_header(
        spec_header_offset(root, m.material_type.spec_name()) as u32,
        spec_trailing(16, 0, root),
        spec_record(16, 0, root),
        encode_utf8(m.material_type.spec_name()),
        spec_optional_index(m.class, spec_mati_with_class(m).len() as int),
        m.class_flags.spec_bits(),
        m.instance_flags.spec_bits(),
        spec_optional_index(m.descriptor, spec_mati_refs(m).len() as int),
    );
}

proof fn lemma_mati_tree(m: MaterialInstanceView)
    requires
        spec_to_intermediate(m.binder) is Ok,
        spec_encodable(m, spec_mati_root(m)),
        spec_node_wf(spec_mati_root(m)),
    ensures
        spec_decode_node(
            spec_mati_encoding(m),
            spec_mati_refs(m),
            16 + spec_trailing_len(spec_mati_root(m)) as int,
            MAX_NESTING_DEPTH as nat,
        ) == Ok::<NodeView, MaterialError>(spec_mati_root(m)),
{
    let root = spec_mati_root(m);
    lemma_mati_layout(m);
    lemma_trailing_len(16, 0, root);
    let all = spec_mati_refs(m);
    let tree = spec_added_refs(root);
    assert(all.len() >= tree.len() && all.subrange(0, tree.len() as int) =~= tree) by {
        reveal(spec_mati_refs);
        reveal(spec_mati_with_class);
    }
    lemma_encoded_node_decodes(spec_mati_encoding(m), all, 16, 0, root, 16 + spec_trailing_len(root) as int);
}

proof fn lemma_mati_lookups(m: MaterialInstanceView)
    requires
        spec_encodable(m, spec_mati_root(m)),
    ensures
        spec_lookup(spec_mati_refs(m), spec_optional_index(m.class, spec_mati_with_class(m).len() as int)) == Some(
            m.class,
        ),
        spec_lookup(spec_mati_refs(m), spec_optional_index(m.descriptor, spec_mati_refs(m).len() as int)) == Some(
            m.descriptor,
        ),
{
    reveal(spec_mati_refs);
    reveal(spec_mati_with_class);
    let tree = spec_added_refs(spec_mati_root(m));
    let with_class = spec_mati_with_class(m);
    let all = spec_mati_refs(m);
    match m.class {
        Some(id) => {
            assert(all[tree.len() as int] == with_class[tree.len() as int]);
        },
        None => {},
    }
}

/// A material instance that reads back as itself and that encodes gives
/// bytes and a reference table from which it is decoded unchanged.
pub proof fn lemma_mati_round_trip(m: MaterialInstanceView)
    requires
        spec_instance_wf(m),
        spec_generate(m) is Ok,
    ensures
        spec_parse_mati(spec_generate(m)->Ok_0.0, m.id, spec_generate(m)->Ok_0.1) == Ok::<
            MaterialInstanceView,
            MaterialErrorView,
        >(m),
{
    lemma_generate_is(m);
    assert(spec_mati_root(m) == spec_instance_node(m.name, m.tags, spec_to_intermediate(m.binder)->Ok_0)) by {
        reveal(spec_mati_root);
    }
    lemma_mati_layout(m);
    lemma_mati_tree(m);
    lemma_mati_lookups(m);
    lemma_instance_node_round_trip(m.name, m.tags, m.binder);
    vstd::utf8::encode_utf8_valid_utf8(m.material_type.spec_name());
    vstd::utf8::encode_utf8_decode_utf8(m.material_type.spec_name());
    crate::vocab::lemma_material_type_name_round_trip(m.material_type);
    crate::flags::lemma_class_flags_decode_encode(m.class_flags);
    crate::flags::lemma_instance_flags_decode_encode(m.instance_flags);
    let bytes = spec_mati_encoding(m);
    let all = spec_mati_refs(m);
    assert(spec_parse_mati(bytes, m.id, all) == Ok::<MaterialInstanceView, MaterialErrorView>(m)) by {
        reveal(spec_parse_mati);
    }
}

/// A material instance whose render state lacks a culling mode is refused,
/// naming the culling tag, once its header, type name and property tree
/// read and its instance node has a name, tags and a binder.
pub proof fn lemma_mati_needs_culling_mode(
    buf: Seq<u8>,
    id: RuntimeID,
    refs: Seq<ResourceReference>,
    c: Seq<NodeView>,
    b: Seq<NodeView>,
    rs: Seq<NodeView>,
)
    requires
        spec_header(buf) is Some,
        spec_c_string(buf, spec_header(buf)->0.type_offset as int) is Some,
        valid_utf8(spec_c_string(buf, spec_header(buf)->0.type_offset as int)->0),
        spec_decode_node(buf, refs, spec_header(buf)->0.instance_offset as int, MAX_NESTING_DEPTH as nat) == Ok::<
            NodeView,
            MaterialError,
        >(NodeView::Nested(NestedTag::Instance, c)),
        spec_req_text(c, TextTag::Name) is Ok,
        spec_req_text(c, TextTag::Tags) is Ok,
        spec_find(c, Wanted::Nested(NestedTag::Binder)) == Some(NodeView::Nested(NestedTag::Binder, b)),
        spec_find(b, Wanted::Nested(NestedTag::RenderState)) == Some(NodeView::Nested(NestedTag::RenderState, rs)),
        spec_find(rs, Wanted::Text(TextTag::CullingMode)) is None,
    ensures
        spec_parse_mati(buf, id, refs) == Err::<MaterialInstanceView, MaterialErrorView>(
            spec_missing(TextTag::CullingMode.spec_code()),
        ),
{
    reveal(spec_parse_mati);
    lemma_binder_needs_culling_mode(b, rs);
}

/// Appends `n` zero bytes.
fn push_zeros(out: &mut Vec<u8>, n: usize)
    ensures
        final(out)@ == old(out)@ + spec_zeros(n as nat),
{
    let mut i: usize = 0;
    while i < n
        invariant
            i <= n,
            out@ == old(out)@ + spec_zeros(i as nat),
        decreases n - i,
    {
        out.push(0u8);
        i = i + 1;
        assert(out@ =~= old(out)@ + spec_zeros(i as nat));
    }
}

impl MaterialInstance {
    /// Parses a material instance (MATI) with identifier `id`, resolving its
    /// table indices against `references`. The sentinel index stands for no
    /// class or descriptor; any other index outside the table is an
    /// `InvalidDependency` error.
    pub fn parse(mati_data: &[u8], id: RuntimeID, references: &[ResourceReference]) -> (r: Result<
        MaterialInstance,
        MaterialError,
    >)
        ensures
            r matches Ok(m) ==> spec_parse_mati(mati_data@, id, references@) == Ok::<
                MaterialInstanceView,
                MaterialErrorView,
            >(m@),
            r matches Err(e) ==> spec_parse_mati(mati_data@, id, references@) == Err::<
                MaterialInstanceView,
                MaterialErrorView,
            >(e@),
    {
        proof {
            reveal(spec_parse_mati);
        }
        let len = mati_data.len();
        if len < 4 {
            return Err(MaterialError::Truncated);
        }
        let h = read_u32_le(mati_data, 0) as usize;
        if h > len || len - h < 32 {
            return Err(MaterialError::Truncated);
        }
        let type_offset = read_u32_le(mati_data, h);
        let class_index = read_u32_le(mati_data, h + 4);
        let class_flags = read_u32_le(mati_data, h + 8);
        let instance_flags = read_u32_le(mati_data, h + 12);
        let descriptor_index = read_u32_le(mati_data, h + 16);
        let instance_offset = read_u32_le(mati_data, h + 28);
        let type_bytes = match crate::node::read_c_string(mati_data, type_offset as u64) {
            Some(b) => b,
            None => {
                return Err(MaterialError::Truncated);
            },
        };
        let type_text = match crate::node::string_from_utf8(type_bytes) {
            Some(s) => s,
            None => {
                return Err(MaterialError::InvalidString);
            },
        };
        let root = match parse_material_property(mati_data, references, instance_offset as u64) {
            Ok(n) => n,
            Err(e) => {
                return Err(e);
            },
        };
        let (name, tags, binder) = match parse_instance(root) {
            Ok(x) => x,
            Err(e) => {
                return Err(e);
            },
        };
        let material_type = match MaterialType::from_name(&type_text) {
            Ok(t) => t,
            Err(e) => {
                return Err(e);
            },
        };
        let class = match lookup_reference(references, class_index) {
            Some(c) => c,
            None => {
                return Err(MaterialError::InvalidDependency(class_index as usize));
            },
        };
        let descriptor = match lookup_reference(references, descriptor_index) {
            Some(c) => c,
            None => {
                return Err(MaterialError::InvalidDependency(descriptor_index as usize));
            },
        };
        Ok(
            MaterialInstance {
                id,
                name,
                material_type,
                tags,
                class,
                descriptor,
                class_flags: ClassFlags::from_u32(class_flags),
                instance_flags: InstanceFlags::from_u32(instance_flags),
                binder,
            },
        )
    }

    /// Encodes this material instance. Returns the bytes and the reference
    /// table that they index: the textures of the property tree in order,
    /// then the class (with default flags), then the descriptor (with the
    /// flags of the tree's textures). Fails as `to_intermediate` does
    /// on the binder, and with `InvalidNumber` where an offset would not fit
    /// in 32 bits or a table index would reach the sentinel.
    pub fn generate(self) -> (r: Result<(Vec<u8>, Vec<ResourceReference>), MaterialError>)
        ensures
            r matches Ok((b, refs)) ==> spec_generate(self@) == Ok::<
                (Seq<u8>, Seq<ResourceReference>),
                MaterialErrorView,
            >((b@, refs@)),
            r matches Err(e) ==> spec_generate(self@) == Err::<
                (Seq<u8>, Seq<ResourceReference>),
                MaterialErrorView,
            >(e@),
    {
        proof {
            reveal(spec_generate);
        }
        let ghost mv = self@;
        let binder_node = match to_intermediate(self.binder) {
            Ok(n) => n,
            Err(e) => {
                return Err(e);
            },
        };
        let ghost bn = binder_node@;
        let mut c: Vec<IntermediateMaterialProperty> = Vec::new();
        c.push(IntermediateMaterialProperty::Text(TextTag::Name, self.name));
        c.push(IntermediateMaterialProperty::Text(TextTag::Tags, self.tags));
        c.push(binder_node);
        let root = IntermediateMaterialProperty::Nested(NestedTag::Instance, c);
        proof {
            crate::node::lemma_spec_views(c@);
            assert(spec_views(c@) =~= seq![NodeView::Text(TextTag::Name, mv.name), NodeView::Text(TextTag::Tags, mv.tags), bn]);
        }
        let ghost rv = root@;
        assert(rv == spec_instance_node(mv.name, mv.tags, bn));
        let mut refs: Vec<ResourceReference> = Vec::new();
        let (record, trailing) = match generate_property(16, &mut refs, root) {
            Ok((r, Some(t))) => (r, t),
            _ => {
                return Err(MaterialError::InvalidNumber);
            },
        };
        proof {
            crate::encode::lemma_trailing_len(16, 0, rv);
        }
        let type_text = self.material_type.as_str().as_bytes();
        let t = (trailing.len() as u64 + 33).saturating_add(type_text.len() as u64);
        let header_offset = t.saturating_add((16 - t % 16) % 16);
        if header_offset > (u32::MAX - 48) as u64 {
            return Err(MaterialError::InvalidNumber);
        }
        let tree_refs = refs.len();
        let class_count: usize = if self.class.is_some() { 1 } else { 0 };
        let descriptor_count: usize = if self.descriptor.is_some() { 1 } else { 0 };
        if tree_refs > NO_REFERENCE as usize - class_count - descriptor_count {
            return Err(MaterialError::InvalidNumber);
        }
        let class_index = match self.class {
            Some(id) => {
                refs.push(default_reference(id, ReferenceType::Normal));
                (refs.len() - 1) as u32
            },
            None => NO_REFERENCE,
        };
        let class_flags = self.class_flags.as_u32();
        let instance_flags = self.instance_flags.as_u32();
        let descriptor_index = match self.descriptor {
            Some(id) => {
                refs.push(ResourceReference { resource: id, flags: tree_reference_flags() });
                (refs.len() - 1) as u32
            },
            None => NO_REFERENCE,
        };
        let out = write_mati(
            header_offset as u32,
            trailing.as_slice(),
            record.as_slice(),
            type_text,
            class_index,
            class_flags,
            instance_flags,
            descriptor_index,
        );
        proof {
            let tree = spec_added_refs(rv);
            assert(refs@ =~= tree + spec_optional_ref(mv.class, spec_default_flags(ReferenceType::Normal)) + spec_optional_ref(mv.descriptor, spec_tree_reference_flags()));
        }
        Ok((out, refs))
    }
}

} // verus!
