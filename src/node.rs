//! The generic property tree and its binary node records.
//!
//! A node record is 16 bytes: the tag code, a data-or-pointer field, a count
//! and a kind code (0 float, 1 string, 2 integer, 3 nested records), each a
//! little-endian `u32`. Pointers are absolute offsets into the buffer.

use vstd::prelude::*;
use vstd::utf8::*;
use crate::bytes::{read_u32_le, spec_u32_le};
use crate::error::MaterialError;
use crate::refs::{lookup_reference, spec_lookup, ResourceReference, RuntimeID, NO_REFERENCE};
use crate::tags::{is_known_tag, spec_is_known_tag, FloatTag, IntTag, NestedTag, TextTag, TAG_TXID, TAG_VALU};

verus! {

/// The kind code of a float node (one inline float, or a vector out of line).
pub const KIND_FLOAT: u32 = 0;

/// The kind code of a string node.
pub const KIND_STRING: u32 = 1;

/// The kind code of an integer node.
pub const KIND_INT: u32 = 2;

/// The kind code of a node whose value is an array of child records.
pub const KIND_NESTED: u32 = 3;

/// How many levels of nested records the decoder follows.
pub const MAX_NESTING_DEPTH: u32 = 32;

/// The value of a `VALU` node. Floats are kept as their IEEE-754
/// single-precision bit patterns.
#[derive(Clone, Debug, PartialEq)]
pub enum FloatVal {
    Single(u32),
    Vector(Vec<u32>),
}

/// A node of the property tree: a tag with the one value that it carries.
#[derive(Debug, PartialEq)]
pub enum IntermediateMaterialProperty {
    Int(IntTag, u32),
    /// A single float, as its bit pattern.
    Float(FloatTag, u32),
    Text(TextTag, String),
    Nested(NestedTag, Vec<IntermediateMaterialProperty>),
    /// `TXID`: a texture, or none.
    TextureID(Option<RuntimeID>),
    /// `VALU`.
    Value(FloatVal),
}

/// The mathematical value of a node: strings as their characters, lists as
/// sequences.
pub enum NodeView {
    Int(IntTag, u32),
    Float(FloatTag, u32),
    Text(TextTag, Seq<char>),
    Nested(NestedTag, Seq<NodeView>),
    TextureID(Option<RuntimeID>),
    Single(u32),
    Vector(Seq<u32>),
}

impl View for IntermediateMaterialProperty {
    type V = NodeView;

    open spec fn view(&self) -> NodeView
        decreases self,
    {
        match self {
            IntermediateMaterialProperty::Int(t, v) => NodeView::Int(*t, *v),
            IntermediateMaterialProperty::Float(t, v) => NodeView::Float(*t, *v),
            IntermediateMaterialProperty::Text(t, s) => NodeView::Text(*t, s@),
            IntermediateMaterialProperty::Nested(t, c) => NodeView::Nested(*t, spec_views(c@)),
            IntermediateMaterialProperty::TextureID(r) => NodeView::TextureID(*r),
            IntermediateMaterialProperty::Value(FloatVal::Single(v)) => NodeView::Single(*v),
            IntermediateMaterialProperty::Value(FloatVal::Vector(v)) => NodeView::Vector(v@),
        }
    }
}

/// The views of a list of nodes.
pub open spec fn spec_views(c: Seq<IntermediateMaterialProperty>) -> Seq<NodeView>
    decreases c,
{
    if c.len() == 0 {
        Seq::empty()
    } else {
        spec_views(c.subrange(0, c.len() - 1)).push(c[c.len() - 1].view())
    }
}

/// The views of a list of nodes, one by one.
pub proof fn lemma_spec_views(c: Seq<IntermediateMaterialProperty>)
    ensures
        spec_views(c).len() == c.len(),
        forall|i: int| 0 <= i < c.len() ==> #[trigger] spec_views(c)[i] == c[i]@,
    decreases c.len(),
{
    if c.len() > 0 {
        let p = c.subrange(0, c.len() - 1);
        lemma_spec_views(p);
        assert(spec_views(c) == spec_views(p).push(c[c.len() - 1]@));
    }
}

/// The index of the first zero byte at or after `i`, or the length of `buf`.
pub open spec fn spec_text_end(buf: Seq<u8>, i: int) -> int
    decreases buf.len() - i,
{
    if i < 0 || i >= buf.len() {
        buf.len() as int
    } else if buf[i] == 0 {
        i
    } else {
        spec_text_end(buf, i + 1)
    }
}

/// The bytes of the zero-terminated string at `start`, if it is terminated
/// within `buf`.
pub open spec fn spec_c_string(buf: Seq<u8>, start: int) -> Option<Seq<u8>> {
    if start > buf.len() || spec_text_end(buf, start) >= buf.len() {
        None
    } else {
        Some(buf.subrange(start, spec_text_end(buf, start)))
    }
}

/// The error for a tag stored with a kind other than its own.
pub open spec fn spec_tag_error(code: u32, kind: u32) -> MaterialError {
    if spec_is_known_tag(code) {
        MaterialError::IncorrectType(code, kind)
    } else {
        MaterialError::UnrecognisedTag(code)
    }
}

/// What the record at `off` decodes to, following at most `depth` levels of
/// nested records.
pub open spec fn spec_decode_node(
    buf: Seq<u8>,
    refs: Seq<ResourceReference>,
    off: int,
    depth: nat,
) -> Result<NodeView, MaterialError>
    decreases depth, 0nat, 0nat,
{
    if off < 0 || off + 16 > buf.len() {
        Err(MaterialError::Truncated)
    } else {
        let code = spec_u32_le(buf, off);
        let data = spec_u32_le(buf, off + 4);
        let count = spec_u32_le(buf, off + 8);
        let kind = spec_u32_le(buf, off + 12);
        if kind == KIND_FLOAT {
            if count == 1 {
                if code == TAG_VALU {
                    Ok(NodeView::Single(data))
                } else {
                    match FloatTag::spec_from_code(code) {
                        Some(t) => Ok(NodeView::Float(t, data)),
                        None => Err(spec_tag_error(code, kind)),
                    }
                }
            } else if code != TAG_VALU {
                Err(spec_tag_error(code, kind))
            } else if data + 4 * count > buf.len() {
                Err(MaterialError::Truncated)
            } else {
                Ok(NodeView::Vector(Seq::new(count as nat, |i: int| spec_u32_le(buf, data + 4 * i))))
            }
        } else if kind == KIND_STRING {
            match TextTag::spec_from_code(code) {
                None => Err(spec_tag_error(code, kind)),
                Some(t) => match spec_c_string(buf, data as int) {
                    None => Err(MaterialError::Truncated),
                    Some(bytes) => if valid_utf8(bytes) {
                        Ok(NodeView::Text(t, decode_utf8(bytes)))
                    } else {
                        Err(MaterialError::InvalidString)
                    },
                },
            }
        } else if kind == KIND_INT {
            if code == TAG_TXID {
                match spec_lookup(refs, data) {
                    Some(r) => Ok(NodeView::TextureID(r)),
                    None => Err(MaterialError::InvalidDependency(data as usize)),
                }
            } else {
                match IntTag::spec_from_code(code) {
                    Some(t) => Ok(NodeView::Int(t, data)),
                    None => Err(spec_tag_error(code, kind)),
                }
            }
        } else if kind == KIND_NESTED {
            match NestedTag::spec_from_code(code) {
                None => Err(spec_tag_error(code, kind)),
                Some(t) => if depth == 0 {
                    Err(MaterialError::NestingTooDeep)
                } else {
                    match spec_decode_children(buf, refs, data as int, count as nat, (depth - 1) as nat) {
                        Ok(c) => Ok(NodeView::Nested(t, c)),
                        Err(e) => Err(e),
                    }
                },
            }
        } else {
            Err(MaterialError::UnrecognisedEntryType(kind))
        }
    }
}

/// What the first `n` of the consecutive records at `ptr` decode to: the
/// first error among them, or all of them.
pub open spec fn spec_decode_children(
    buf: Seq<u8>,
    refs: Seq<ResourceReference>,
    ptr: int,
    n: nat,
    depth: nat,
) -> Result<Seq<NodeView>, MaterialError>
    decreases depth, 1nat, n,
{
    if n == 0 {
        Ok(Seq::empty())
    } else {
        match spec_decode_children(buf, refs, ptr, (n - 1) as nat, depth) {
            Err(e) => Err(e),
            Ok(s) => match spec_decode_node(buf, refs, ptr + 16 * (n - 1), depth) {
                Err(e) => Err(e),
                Ok(c) => Ok(s.push(c)),
            },
        }
    }
}

proof fn lemma_children_error_stays(
    buf: Seq<u8>,
    refs: Seq<ResourceReference>,
    ptr: int,
    i: nat,
    n: nat,
    depth: nat,
    e: MaterialError,
)
    requires
        i <= n,
        spec_decode_children(buf, refs, ptr, i, depth) == Err::<Seq<NodeView>, MaterialError>(e),
    ensures
        spec_decode_children(buf, refs, ptr, n, depth) == Err::<Seq<NodeView>, MaterialError>(e),
    decreases n - i,
{
    if i < n {
        lemma_children_error_stays(buf, refs, ptr, i, (n - 1) as nat, depth, e);
    }
}

/// The kind code that the tag with code `code` is stored with, if it is a
/// tag.
pub open spec fn spec_expected_kind(code: u32) -> Option<u32> {
    if code == TAG_TXID || IntTag::spec_from_code(code) is Some {
        Some(KIND_INT)
    } else if TextTag::spec_from_code(code) is Some {
        Some(KIND_STRING)
    } else if NestedTag::spec_from_code(code) is Some {
        Some(KIND_NESTED)
    } else if code == TAG_VALU || FloatTag::spec_from_code(code) is Some {
        Some(KIND_FLOAT)
    } else {
        None
    }
}

/// A record whose tag is known but whose kind code is another kind's is
/// refused as a tag/kind mismatch; with a kind code that is no kind at all
/// it is refused too. Such a record never decodes to a value.
pub proof fn lemma_tag_kind_mismatch(buf: Seq<u8>, refs: Seq<ResourceReference>, off: int, depth: nat)
    requires
        0 <= off,
        off + 16 <= buf.len(),
        spec_expected_kind(spec_u32_le(buf, off)) matches Some(k) && k != spec_u32_le(buf, off + 12),
    ensures
        spec_decode_node(buf, refs, off, depth) is Err,
        spec_u32_le(buf, off + 12) <= KIND_NESTED ==> spec_decode_node(buf, refs, off, depth) == Err::<
            NodeView,
            MaterialError,
        >(MaterialError::IncorrectType(spec_u32_le(buf, off), spec_u32_le(buf, off + 12))),
{
}

/// A texture record holding the sentinel decodes to no texture; one holding
/// an index into the table decodes to the identifier there; any other
/// index is an addressing error.
pub proof fn lemma_texture_reference(buf: Seq<u8>, refs: Seq<ResourceReference>, off: int, depth: nat)
    requires
        0 <= off,
        off + 16 <= buf.len(),
        spec_u32_le(buf, off) == TAG_TXID,
        spec_u32_le(buf, off + 12) == KIND_INT,
    ensures
        ({
            let index = spec_u32_le(buf, off + 4);
            let r = spec_decode_node(buf, refs, off, depth);
            &&& index == NO_REFERENCE ==> r == Ok::<NodeView, MaterialError>(NodeView::TextureID(None))
            &&& index != NO_REFERENCE && index < refs.len() ==> r == Ok::<NodeView, MaterialError>(
                NodeView::TextureID(Some(refs[index as int].resource)),
            )
            &&& index != NO_REFERENCE && index >= refs.len() ==> r == Err::<NodeView, MaterialError>(
                MaterialError::InvalidDependency(index as usize),
            )
        }),
{
}

/// Relies on `String::from_utf8`: it accepts exactly the byte sequences that
/// are valid UTF-8, and the string it returns holds the characters they encode.
#[verifier::external_body]
pub(crate) fn string_from_utf8(bytes: Vec<u8>) -> (r: Option<String>)
    ensures
        r is Some <==> valid_utf8(bytes@),
        r matches Some(s) ==> s@ == decode_utf8(bytes@),
{
    String::from_utf8(bytes).ok()
}

/// The error for a tag stored with a kind other than its own.
fn tag_error(code: u32, kind: u32) -> (r: MaterialError)
    ensures
        r == spec_tag_error(code, kind),
{
    if is_known_tag(code) {
        MaterialError::IncorrectType(code, kind)
    } else {
        MaterialError::UnrecognisedTag(code)
    }
}

/// Reads the zero-terminated string at `start`.
pub(crate) fn read_c_string(data: &[u8], start: u64) -> (r: Option<Vec<u8>>)
    ensures
        match r {
            Some(v) => spec_c_string(data@, start as int) == Some(v@),
            None => spec_c_string(data@, start as int) is None,
        },
{
    if start > data.len() as u64 {
        return None;
    }
    let s = start as usize;
    let mut end = s;
    let mut out: Vec<u8> = Vec::new();
    while end < data.len() && data[end] != 0
        invariant
            s <= end <= data@.len(),
            spec_text_end(data@, s as int) == spec_text_end(data@, end as int),
            out@ == data@.subrange(s as int, end as int),
        decreases data@.len() - end,
    {
        out.push(data[end]);
        end = end + 1;
        assert(out@ =~= data@.subrange(s as int, end as int));
    }
    if end >= data.len() {
        None
    } else {
        Some(out)
    }
}

/// Decodes the record at `off`, following at most `depth` levels of nested
/// records.
fn decode_node_at(data: &[u8], refs: &[ResourceReference], off: u64, depth: u32) -> (r: Result<
    IntermediateMaterialProperty,
    MaterialError,
>)
    ensures
        r matches Ok(p) ==> spec_decode_node(data@, refs@, off as int, depth as nat) == Ok::<
            NodeView,
            MaterialError,
        >(p@),
        r matches Err(e) ==> spec_decode_node(data@, refs@, off as int, depth as nat) == Err::<
            NodeView,
            MaterialError,
        >(e),
    decreases depth,
{
    let data_len = data.len();
    let len = data_len as u64;
    if off > len || len - off < 16 {
        return Err(MaterialError::Truncated);
    }
    let o = off as usize;
    let code = read_u32_le(data, o);
    let value = read_u32_le(data, o + 4);
    let count = read_u32_le(data, o + 8);
    let kind = read_u32_le(data, o + 12);
    if kind == KIND_FLOAT {
        if count == 1 {
            if code == TAG_VALU {
                Ok(IntermediateMaterialProperty::Value(FloatVal::Single(value)))
            } else {
                match FloatTag::from_code(code) {
                    Some(t) => Ok(IntermediateMaterialProperty::Float(t, value)),
                    None => Err(tag_error(code, kind)),
                }
            }
        } else if code != TAG_VALU {
            Err(tag_error(code, kind))
        } else if value as u64 + 4 * (count as u64) > len {
            Err(MaterialError::Truncated)
        } else {
            let ptr = value as usize;
            assert((ptr as int) + 4 * (count as int) <= data@.len() as int);
            let mut v: Vec<u32> = Vec::new();
            let mut i: u32 = 0;
            while i < count
                invariant
                    i <= count,
                    (ptr as int) + 4 * (count as int) <= data@.len() as int,
                    data_len == data@.len(),
                    v@ == Seq::new(i as nat, |j: int| spec_u32_le(data@, ptr + 4 * j)),
                decreases count - i,
            {
                assert((ptr as int) + 4 * (i as int) + 4 <= data@.len() as int);
                let x = read_u32_le(data, ptr + 4 * (i as usize));
                v.push(x);
                i = i + 1;
                assert(v@ =~= Seq::new(i as nat, |j: int| spec_u32_le(data@, ptr + 4 * j)));
            }
            let r = IntermediateMaterialProperty::Value(FloatVal::Vector(v));
            assert(r@ == NodeView::Vector(Seq::new(count as nat, |j: int| spec_u32_le(data@, ptr + 4 * j))));
            Ok(r)
        }
    } else if kind == KIND_STRING {
        match TextTag::from_code(code) {
            None => Err(tag_error(code, kind)),
            Some(t) => match read_c_string(data, value as u64) {
                None => Err(MaterialError::Truncated),
                Some(bytes) => match string_from_utf8(bytes) {
                    Some(s) => Ok(IntermediateMaterialProperty::Text(t, s)),
                    None => Err(MaterialError::InvalidString),
                },
            },
        }
    } else if kind == KIND_INT {
        if code == TAG_TXID {
            match lookup_reference(refs, value) {
                Some(r) => Ok(IntermediateMaterialProperty::TextureID(r)),
                None => Err(MaterialError::InvalidDependency(value as usize)),
            }
        } else {
            match IntTag::from_code(code) {
                Some(t) => Ok(IntermediateMaterialProperty::Int(t, value)),
                None => Err(tag_error(code, kind)),
            }
        }
    } else if kind == KIND_NESTED {
        match NestedTag::from_code(code) {
            None => Err(tag_error(code, kind)),
            Some(t) => {
                if depth == 0 {
                    return Err(MaterialError::NestingTooDeep);
                }
                let ptr = value as u64;
                let mut children: Vec<IntermediateMaterialProperty> = Vec::new();
                assert(spec_views(children@) =~= Seq::<NodeView>::empty());
                let mut i: u32 = 0;
                while i < count
                    invariant
                        i <= count,
                        depth > 0,
                        ptr == value as u64,
                        off as int + 16 <= data@.len(),
                        code == spec_u32_le(data@, off as int),
                        value == spec_u32_le(data@, off as int + 4),
                        count == spec_u32_le(data@, off as int + 8),
                        kind == spec_u32_le(data@, off as int + 12),
                        kind == KIND_NESTED,
                        NestedTag::spec_from_code(code) == Some(t),
                        spec_decode_children(data@, refs@, ptr as int, i as nat, (depth - 1) as nat)
                            == Ok::<Seq<NodeView>, MaterialError>(spec_views(children@)),
                    decreases count - i,
                {
                    match decode_node_at(data, refs, ptr + 16 * (i as u64), depth - 1) {
                        Ok(c) => {
                            let ghost before = children@;
                            let ghost cv = c@;
                            children.push(c);
                            assert(children@.subrange(0, children@.len() - 1) =~= before);
                            i = i + 1;
                        },
                        Err(e) => {
                            proof {
                                assert(spec_decode_node(data@, refs@, ptr + 16 * i, (depth - 1) as nat)
                                    == Err::<NodeView, MaterialError>(e));
                                assert(spec_decode_children(data@, refs@, ptr as int, (i + 1) as nat, (depth - 1) as nat)
                                    == Err::<Seq<NodeView>, MaterialError>(e));
                                lemma_children_error_stays(
                                    data@,
                                    refs@,
                                    ptr as int,
                                    (i + 1) as nat,
                                    count as nat,
                                    (depth - 1) as nat,
                                    e,
                                );
                            }
                            return Err(e);
                        },
                    }
                }
                let r = IntermediateMaterialProperty::Nested(t, children);

                Ok(r)
            },
        }
    } else {
        Err(MaterialError::UnrecognisedEntryType(kind))
    }
}

/// Decodes the node record at `offset` and, recursively, everything that it
/// points to: strings, float vectors and arrays of child records. Table
/// indices of texture nodes are resolved against `references`.
pub fn parse_material_property(data: &[u8], references: &[ResourceReference], offset: u64) -> (r:
    Result<IntermediateMaterialProperty, MaterialError>)
    ensures
        match r {
            Ok(p) => spec_decode_node(data@, references@, offset as int, MAX_NESTING_DEPTH as nat)
                == Ok::<NodeView, MaterialError>(p@),
            Err(e) => spec_decode_node(data@, references@, offset as int, MAX_NESTING_DEPTH as nat)
                == Err::<NodeView, MaterialError>(e),
        },
{
    decode_node_at(data, references, offset, MAX_NESTING_DEPTH)
}

} // verus!
