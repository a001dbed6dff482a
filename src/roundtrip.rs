//! Decoding what the encoder laid out gives back the node that was encoded.

use vstd::prelude::*;
use vstd::utf8::{decode_utf8, encode_utf8, encode_utf8_decode_utf8, encode_utf8_valid_utf8, valid_utf8};
use crate::bytes::{lemma_u32_bytes_round_trip, spec_u32_bytes, spec_u32_le, spec_zeros, spec_pad_len};
use crate::encode::{
    lemma_children_prefix, lemma_children_trailing_len, lemma_trailing_len, spec_added_refs,
    spec_children_added_refs, spec_children_records, spec_children_trailing, spec_children_trailing_len,
    lemma_children_nesting, spec_fits, spec_floats_bytes, spec_nesting, spec_sizes_fit, spec_record, spec_record_of, spec_trailing, spec_trailing_len,
};
use crate::error::MaterialError;
use crate::node::{spec_c_string, spec_decode_children, spec_decode_node, spec_text_end, NodeView, MAX_NESTING_DEPTH};
use crate::refs::{spec_lookup, spec_tree_reference_flags, ResourceReference, NO_REFERENCE};
use crate::tags::{lemma_tag_codes_unique, TAG_TXID, TAG_VALU};

verus! {

/// Whether a node reads back as itself once encoded: its strings hold no
/// zero byte, and its float vectors do not have exactly one element (which
/// would read back as a single float).
pub open spec fn spec_node_wf(n: NodeView) -> bool
    decreases n,
{
    match n {
        NodeView::Text(_, s) => forall|j: int| 0 <= j < encode_utf8(s).len() ==> #[trigger] encode_utf8(s)[j] != 0,
        NodeView::Vector(v) => v.len() != 1,
        NodeView::Nested(_, c) => spec_children_wf(c),
        _ => true,
    }
}

/// Whether every node of a list is well formed, as `spec_node_wf` says.
pub open spec fn spec_children_wf(c: Seq<NodeView>) -> bool
    decreases c,
{
    c.len() == 0 || (spec_children_wf(c.subrange(0, c.len() - 1)) && spec_node_wf(c[c.len() - 1]))
}

proof fn lemma_children_wf_at(c: Seq<NodeView>, i: int)
    requires
        spec_children_wf(c),
        0 <= i < c.len(),
    ensures
        spec_node_wf(c[i]),
    decreases c.len(),
{
    if i < c.len() - 1 {
        lemma_children_wf_at(c.subrange(0, c.len() - 1), i);
    }
}

pub(crate) proof fn lemma_u32_at(buf: Seq<u8>, q: int, v: u32)
    requires
        0 <= q,
        q + 4 <= buf.len(),
        buf.subrange(q, q + 4) == spec_u32_bytes(v),
    ensures
        spec_u32_le(buf, q) == v,
{
    lemma_u32_bytes_round_trip(v);
    let s = spec_u32_bytes(v);
    assert(buf[q] == s[0] && buf[q + 1] == s[1] && buf[q + 2] == s[2] && buf[q + 3] == s[3]) by {
        assert(buf.subrange(q, q + 4)[0] == buf[q]);
        assert(buf.subrange(q, q + 4)[1] == buf[q + 1]);
        assert(buf.subrange(q, q + 4)[2] == buf[q + 2]);
        assert(buf.subrange(q, q + 4)[3] == buf[q + 3]);
    }
}

proof fn lemma_record_fields(buf: Seq<u8>, pos: int, code: u32, data: u32, count: u32, kind: u32)
    requires
        0 <= pos,
        pos + 16 <= buf.len(),
        buf.subrange(pos, pos + 16) == spec_record_of(code, data, count, kind),
    ensures
        spec_u32_le(buf, pos) == code,
        spec_u32_le(buf, pos + 4) == data,
        spec_u32_le(buf, pos + 8) == count,
        spec_u32_le(buf, pos + 12) == kind,
{
    let r = spec_record_of(code, data, count, kind);
    assert(buf.subrange(pos, pos + 4) =~= r.subrange(0, 4));
    assert(r.subrange(0, 4) =~= spec_u32_bytes(code));
    assert(buf.subrange(pos + 4, pos + 8) =~= r.subrange(4, 8));
    assert(r.subrange(4, 8) =~= spec_u32_bytes(data));
    assert(buf.subrange(pos + 8, pos + 12) =~= r.subrange(8, 12));
    assert(r.subrange(8, 12) =~= spec_u32_bytes(count));
    assert(buf.subrange(pos + 12, pos + 16) =~= r.subrange(12, 16));
    assert(r.subrange(12, 16) =~= spec_u32_bytes(kind));
    lemma_u32_at(buf, pos, code);
    lemma_u32_at(buf, pos + 4, data);
    lemma_u32_at(buf, pos + 8, count);
    lemma_u32_at(buf, pos + 12, kind);
}

pub(crate) proof fn lemma_text_end(buf: Seq<u8>, i: int, end: int)
    requires
        0 <= i <= end < buf.len(),
        buf[end] == 0,
        forall|j: int| i <= j < end ==> buf[j] != 0,
    ensures
        spec_text_end(buf, i) == end,
    decreases end - i,
{
    if i < end {
        lemma_text_end(buf, i + 1, end);
    }
}

proof fn lemma_floats_bytes_at(v: Seq<u32>, i: int)
    requires
        0 <= i < v.len(),
    ensures
        spec_floats_bytes(v).len() == 4 * v.len(),
        spec_floats_bytes(v).subrange(4 * i, 4 * i + 4) == spec_u32_bytes(v[i]),
    decreases v.len(),
{
    let p = v.subrange(0, v.len() - 1);
    lemma_floats_len(p);
    if i < v.len() - 1 {
        lemma_floats_bytes_at(p, i);
        assert(spec_floats_bytes(v).subrange(4 * i, 4 * i + 4) =~= spec_floats_bytes(p).subrange(4 * i, 4 * i + 4));
    } else {
        assert(spec_floats_bytes(v).subrange(4 * i, 4 * i + 4) =~= spec_u32_bytes(v[i]));
    }
}

proof fn lemma_floats_len(v: Seq<u32>)
    ensures
        spec_floats_bytes(v).len() == 4 * v.len(),
    decreases v.len(),
{
    if v.len() > 0 {
        lemma_floats_len(v.subrange(0, v.len() - 1));
    }
}

/// The parts of a list of nodes' encoding that belong to its `i`-th node.
proof fn lemma_children_parts(base: int, nrefs: int, c: Seq<NodeView>, i: int)
    requires
        0 <= i < c.len(),
    ensures
        ({
            let p = c.take(i);
            let bi = base + spec_children_trailing_len(p);
            let ni = nrefs + spec_children_added_refs(p).len();
            let lo = spec_children_trailing_len(p) as int;
            let ao = spec_children_added_refs(p).len() as int;
            &&& spec_children_records(base, nrefs, c).subrange(16 * i, 16 * i + 16) == spec_record(bi, ni, c[i])
            &&& spec_children_trailing(base, nrefs, c).subrange(lo, lo + spec_trailing_len(c[i])) == spec_trailing(
                bi,
                ni,
                c[i],
            )
            &&& spec_children_added_refs(c).subrange(ao, ao + spec_added_refs(c[i]).len()) == spec_added_refs(c[i])
            &&& lo + spec_trailing_len(c[i]) <= spec_children_trailing_len(c)
            &&& ao + spec_added_refs(c[i]).len() <= spec_children_added_refs(c).len()
        }),
{
    let p = c.take(i);
    let q = c.take(i + 1);
    assert(q.subrange(0, i) =~= p);
    assert(q[i] == c[i]);
    lemma_children_trailing_len(base, nrefs, q);
    lemma_children_trailing_len(base, nrefs, p);
    lemma_trailing_len(base + spec_children_trailing_len(p), nrefs + spec_children_added_refs(p).len(), c[i]);
    lemma_prefix_of(base, nrefs, c, i + 1);
    lemma_children_trailing_len(base, nrefs, c);
    let lo = spec_children_trailing_len(p) as int;
    assert(spec_children_trailing_len(q) == lo + spec_trailing_len(c[i]));
    assert(spec_children_trailing(base, nrefs, q) == spec_children_trailing(base, nrefs, p) + spec_trailing(
        base + spec_children_trailing_len(p),
        nrefs + spec_children_added_refs(p).len(),
        c[i],
    ));
    let ao = spec_children_added_refs(p).len() as int;
    assert(spec_children_records(base, nrefs, c).subrange(16 * i, 16 * i + 16) =~= spec_children_records(
        base,
        nrefs,
        q,
    ).subrange(16 * i, 16 * i + 16));
    assert(spec_children_trailing(base, nrefs, c).subrange(lo, lo + spec_trailing_len(c[i]))
        =~= spec_children_trailing(base, nrefs, q).subrange(lo, lo + spec_trailing_len(c[i])));
    assert(spec_children_added_refs(c).subrange(ao, ao + spec_added_refs(c[i]).len())
        =~= spec_children_added_refs(q).subrange(ao, ao + spec_added_refs(c[i]).len()));
}

/// The encoding of a prefix of a list of nodes begins the encoding of the
/// whole list.
proof fn lemma_prefix_of(base: int, nrefs: int, c: Seq<NodeView>, j: int)
    requires
        0 <= j <= c.len(),
    ensures
        spec_children_trailing_len(c.take(j)) <= spec_children_trailing_len(c),
        spec_children_added_refs(c.take(j)).len() <= spec_children_added_refs(c).len(),
        spec_children_records(base, nrefs, c.take(j)).len() == 16 * j,
        16 * j <= spec_children_records(base, nrefs, c).len(),
        spec_children_records(base, nrefs, c).subrange(0, 16 * j) == spec_children_records(base, nrefs, c.take(j)),
        spec_children_trailing(base, nrefs, c).subrange(0, spec_children_trailing_len(c.take(j)) as int)
            == spec_children_trailing(base, nrefs, c.take(j)),
        spec_children_added_refs(c).subrange(0, spec_children_added_refs(c.take(j)).len() as int)
            == spec_children_added_refs(c.take(j)),
    decreases c.len() - j,
{
    lemma_children_trailing_len(base, nrefs, c.take(j));
    lemma_children_trailing_len(base, nrefs, c);
    if j == c.len() {
        assert(c.take(j) =~= c);
        assert(spec_children_records(base, nrefs, c).subrange(0, 16 * j) =~= spec_children_records(base, nrefs, c));
        assert(spec_children_trailing(base, nrefs, c).subrange(0, spec_children_trailing_len(c) as int)
            =~= spec_children_trailing(base, nrefs, c));
        assert(spec_children_added_refs(c).subrange(0, spec_children_added_refs(c).len() as int)
            =~= spec_children_added_refs(c));
    } else {
        lemma_prefix_of(base, nrefs, c, j + 1);
        let p = c.take(j);
        let q = c.take(j + 1);
        assert(q.subrange(0, j) =~= p);
        lemma_children_trailing_len(base, nrefs, q);
        assert(spec_children_records(base, nrefs, c).subrange(0, 16 * j) =~= spec_children_records(
            base,
            nrefs,
            q,
        ).subrange(0, 16 * j));
        assert(spec_children_trailing(base, nrefs, c).subrange(0, spec_children_trailing_len(p) as int)
            =~= spec_children_trailing(base, nrefs, q).subrange(0, spec_children_trailing_len(p) as int));
        assert(spec_children_added_refs(c).subrange(0, spec_children_added_refs(p).len() as int)
            =~= spec_children_added_refs(q).subrange(0, spec_children_added_refs(p).len() as int));
    }
}

proof fn lemma_decode_encoded_text(
    buf: Seq<u8>,
    refs: Seq<ResourceReference>,
    base: int,
    nrefs: int,
    n: NodeView,
    pos: int,
    depth: nat,
)
    requires
        spec_node_wf(n),
        spec_nesting(n) <= depth,
        n is Text,
        0 <= base,
        0 <= nrefs,
        spec_sizes_fit(base, nrefs, n),
        0 <= pos,
        pos + 16 <= buf.len(),
        buf.subrange(pos, pos + 16) == spec_record(base, nrefs, n),
        base + spec_trailing_len(n) <= buf.len(),
        buf.subrange(base, base + spec_trailing_len(n)) == spec_trailing(base, nrefs, n),
        nrefs + spec_added_refs(n).len() <= refs.len(),
        refs.subrange(nrefs, nrefs + spec_added_refs(n).len()) == spec_added_refs(n),
    ensures
        spec_decode_node(buf, refs, pos, depth) == Ok::<NodeView, MaterialError>(n),
{
    lemma_tag_codes_unique();
    lemma_trailing_len(base, nrefs, n);
    let t = n->Text_0;
    let s = n->Text_1;

            let bytes = encode_utf8(s);
            let len = bytes.len() as int;
            lemma_record_fields(buf, pos, t.spec_code(), base as u32, (len + 1) as u32, 1);
            let tr = spec_trailing(base, nrefs, n);
            assert forall|j: int| base <= j < base + len implies buf[j] != 0 by {
                assert(buf[j] == buf.subrange(base, base + spec_trailing_len(n))[j - base]);
                assert(tr[j - base] == bytes[j - base]);
            }
            assert(buf[base + len] == 0) by {
                assert(buf[base + len] == buf.subrange(base, base + spec_trailing_len(n))[len]);
                assert(tr[len] == 0);
            }
            lemma_text_end(buf, base, base + len);
            assert(buf.subrange(base, base + len) =~= bytes) by {
                assert forall|j: int| 0 <= j < len implies buf.subrange(base, base + len)[j] == bytes[j] by {
                    assert(buf[base + j] == buf.subrange(base, base + spec_trailing_len(n))[j]);
                    assert(tr[j] == bytes[j]);
                }
            }
            assert(spec_c_string(buf, base) == Some(bytes));
            encode_utf8_valid_utf8(s);
            encode_utf8_decode_utf8(s);
        }

proof fn lemma_decode_encoded_vector(
    buf: Seq<u8>,
    refs: Seq<ResourceReference>,
    base: int,
    nrefs: int,
    n: NodeView,
    pos: int,
    depth: nat,
)
    requires
        spec_node_wf(n),
        spec_nesting(n) <= depth,
        n is Vector,
        0 <= base,
        0 <= nrefs,
        spec_sizes_fit(base, nrefs, n),
        0 <= pos,
        pos + 16 <= buf.len(),
        buf.subrange(pos, pos + 16) == spec_record(base, nrefs, n),
        base + spec_trailing_len(n) <= buf.len(),
        buf.subrange(base, base + spec_trailing_len(n)) == spec_trailing(base, nrefs, n),
        nrefs + spec_added_refs(n).len() <= refs.len(),
        refs.subrange(nrefs, nrefs + spec_added_refs(n).len()) == spec_added_refs(n),
    ensures
        spec_decode_node(buf, refs, pos, depth) == Ok::<NodeView, MaterialError>(n),
{
    lemma_tag_codes_unique();
    lemma_trailing_len(base, nrefs, n);
    let v = n->Vector_0;

            lemma_record_fields(buf, pos, TAG_VALU, base as u32, v.len() as u32, 0);
            lemma_floats_len(v);
            let tr = spec_trailing(base, nrefs, n);
            assert forall|i: int| 0 <= i < v.len() implies spec_u32_le(buf, base + 4 * i) == v[i] by {
                lemma_floats_bytes_at(v, i);
                assert(buf.subrange(base + 4 * i, base + 4 * i + 4) =~= tr.subrange(4 * i, 4 * i + 4));
                assert(tr.subrange(4 * i, 4 * i + 4) =~= spec_floats_bytes(v).subrange(4 * i, 4 * i + 4));
                lemma_u32_at(buf, base + 4 * i, v[i]);
            }
            assert(Seq::new(v.len() as nat, |i: int| spec_u32_le(buf, base + 4 * i)) =~= v);
        }

/// Decoding the record of a well-formed node, in a buffer that holds the
/// node's out-of-line bytes where the encoder placed them and a table that
/// holds the references that the encoder appended, gives back the node.
pub proof fn lemma_decode_encoded(
    buf: Seq<u8>,
    refs: Seq<ResourceReference>,
    base: int,
    nrefs: int,
    n: NodeView,
    pos: int,
    depth: nat,
)
    requires
        spec_node_wf(n),
        spec_nesting(n) <= depth,
        0 <= base,
        0 <= nrefs,
        spec_sizes_fit(base, nrefs, n),
        0 <= pos,
        pos + 16 <= buf.len(),
        buf.subrange(pos, pos + 16) == spec_record(base, nrefs, n),
        base + spec_trailing_len(n) <= buf.len(),
        buf.subrange(base, base + spec_trailing_len(n)) == spec_trailing(base, nrefs, n),
        nrefs + spec_added_refs(n).len() <= refs.len(),
        refs.subrange(nrefs, nrefs + spec_added_refs(n).len()) == spec_added_refs(n),
    ensures
        spec_decode_node(buf, refs, pos, depth) == Ok::<NodeView, MaterialError>(n),
    decreases n, 0nat,
{
    lemma_tag_codes_unique();
    lemma_trailing_len(base, nrefs, n);
    match n {
        NodeView::Int(t, v) => {
            lemma_record_fields(buf, pos, t.spec_code(), v, 1, 2);
        },
        NodeView::Float(t, v) => {
            lemma_record_fields(buf, pos, t.spec_code(), v, 1, 0);
        },
        NodeView::Single(v) => {
            lemma_record_fields(buf, pos, TAG_VALU, v, 1, 0);
        },
        NodeView::TextureID(None) => {
            lemma_record_fields(buf, pos, TAG_TXID, NO_REFERENCE, 1, 2);
        },
        NodeView::TextureID(Some(id)) => {
            lemma_record_fields(buf, pos, TAG_TXID, nrefs as u32, 1, 2);
            assert(refs[nrefs] == refs.subrange(nrefs, nrefs + 1)[0]);
        },
        NodeView::Text(_, _) => {
            lemma_decode_encoded_text(buf, refs, base, nrefs, n, pos, depth);
        },
        NodeView::Vector(_) => {
            lemma_decode_encoded_vector(buf, refs, base, nrefs, n, pos, depth);
        },
        NodeView::Nested(t, c) => {
            let cl = spec_children_trailing_len(c) as int;
            lemma_children_trailing_len(base, nrefs, c);
            lemma_record_fields(buf, pos, t.spec_code(), (base + cl) as u32, c.len() as u32, 3);
            let tr = spec_trailing(base, nrefs, n);
            assert(buf.subrange(base, base + cl) =~= tr.subrange(0, cl));
            assert(tr.subrange(0, cl) =~= spec_children_trailing(base, nrefs, c));
            assert(buf.subrange(base + cl, base + cl + 16 * c.len()) =~= tr.subrange(cl, cl + 16 * c.len()));
            assert(tr.subrange(cl, cl + 16 * c.len()) =~= spec_children_records(base, nrefs, c));
            assert(decreases_to!(n => n->Nested_1));
            assert forall|i: int| 0 <= i < c.len() implies #[trigger] spec_node_wf(c[i]) && spec_nesting(c[i])
                <= (depth - 1) as nat by {
                lemma_children_wf_at(c, i);
                lemma_children_nesting(c, i);
            }
            lemma_decode_children(buf, refs, base, nrefs, c, c.len(), (depth - 1) as nat);
            assert(c.take(c.len() as int) =~= c);
        },
    }
}

/// Decoding the first `k` records of a list of well-formed nodes laid out
/// by the encoder gives back those nodes.
proof fn lemma_decode_children(
    buf: Seq<u8>,
    refs: Seq<ResourceReference>,
    base: int,
    nrefs: int,
    c: Seq<NodeView>,
    k: nat,
    depth: nat,
)
    requires
        k <= c.len(),
        forall|i: int| 0 <= i < c.len() ==> #[trigger] spec_node_wf(c[i]) && spec_nesting(c[i]) <= depth,
        0 <= base,
        0 <= nrefs,
        base + spec_children_trailing_len(c) + 16 * c.len() <= u32::MAX,
        nrefs + spec_children_added_refs(c).len() <= NO_REFERENCE,
        base + spec_children_trailing_len(c) + 16 * c.len() <= buf.len(),
        buf.subrange(base, base + spec_children_trailing_len(c)) == spec_children_trailing(base, nrefs, c),
        buf.subrange(
            base + spec_children_trailing_len(c),
            base + spec_children_trailing_len(c) + 16 * c.len(),
        ) == spec_children_records(base, nrefs, c),
        nrefs + spec_children_added_refs(c).len() <= refs.len(),
        refs.subrange(nrefs, nrefs + spec_children_added_refs(c).len()) == spec_children_added_refs(c),
    ensures
        spec_decode_children(buf, refs, base + spec_children_trailing_len(c), k, depth) == Ok::<
            Seq<NodeView>,
            MaterialError,
        >(c.take(k as int)),
    decreases c, k + 1,
{
    let ptr = base + spec_children_trailing_len(c);
    if k == 0 {
        assert(c.take(0) =~= Seq::<NodeView>::empty());
    } else {
        lemma_decode_children(buf, refs, base, nrefs, c, (k - 1) as nat, depth);
        let i = k - 1;
        lemma_children_parts(base, nrefs, c, i);
        lemma_children_trailing_len(base, nrefs, c);
        let p = c.take(i);
        let bi = base + spec_children_trailing_len(p);
        let ni = nrefs + spec_children_added_refs(p).len();
        let lo = spec_children_trailing_len(p) as int;
        let ao = spec_children_added_refs(p).len() as int;
        let recs = spec_children_records(base, nrefs, c);
        let trs = spec_children_trailing(base, nrefs, c);
        let adds = spec_children_added_refs(c);
        assert(buf.subrange(ptr + 16 * i, ptr + 16 * i + 16) =~= recs.subrange(16 * i, 16 * i + 16));
        assert(buf.subrange(bi, bi + spec_trailing_len(c[i])) =~= trs.subrange(lo, lo + spec_trailing_len(c[i])));
        assert(refs.subrange(ni, ni + spec_added_refs(c[i]).len()) =~= adds.subrange(
            ao,
            ao + spec_added_refs(c[i]).len(),
        ));
        assert(decreases_to!(c => c[i]));
        assert(spec_node_wf(c[i]) && spec_nesting(c[i]) <= depth);
        lemma_decode_encoded(buf, refs, bi, ni, c[i], ptr + 16 * i, depth);
        assert(c.take(k as int) =~= c.take(i).push(c[i]));
    }
}

/// Every well-formed node that the encoder accepts decodes back to itself:
/// in a buffer that holds its record at `pos` and its out-of-line bytes where
/// the encoder placed them, with a table that holds the references the
/// encoder appended, the decoder (which follows `MAX_NESTING_DEPTH` levels)
/// gives back the node.
pub proof fn lemma_encoded_node_decodes(
    buf: Seq<u8>,
    refs: Seq<ResourceReference>,
    base: int,
    nrefs: int,
    n: NodeView,
    pos: int,
)
    requires
        spec_node_wf(n),
        0 <= base,
        0 <= nrefs,
        spec_fits(base, nrefs, n),
        0 <= pos,
        pos + 16 <= buf.len(),
        buf.subrange(pos, pos + 16) == spec_record(base, nrefs, n),
        base + spec_trailing_len(n) <= buf.len(),
        buf.subrange(base, base + spec_trailing_len(n)) == spec_trailing(base, nrefs, n),
        nrefs + spec_added_refs(n).len() <= refs.len(),
        refs.subrange(nrefs, nrefs + spec_added_refs(n).len()) == spec_added_refs(n),
    ensures
        spec_decode_node(buf, refs, pos, MAX_NESTING_DEPTH as nat) == Ok::<NodeView, MaterialError>(n),
{
    lemma_decode_encoded(buf, refs, base, nrefs, n, pos, MAX_NESTING_DEPTH as nat);
}

} // verus!
