//! Material entities: the flat override tables of a material, split over two
//! aligned streams. The MATB stream names the overrides; the MATT stream
//! holds their values in the same order.
//!
//! A MATB entry is a type byte, the name's length with its terminator, the
//! name and a zero byte. A MATT entry is a type byte and the value: 1 a
//! texture's table index (`0xFFFFFFFF` for none), 2 an RGB colour and 3 an
//! RGBA colour as three or four floats, 4 a float, and 5, 6 and 7 vectors of
//! two, three and four floats.

use vstd::prelude::*;
use vstd::utf8::{decode_utf8, encode_utf8, valid_utf8};
use indexmap::IndexMap;
use std::hash::RandomState;
use crate::bytes::{push_u32_le, spec_u32_bytes, spec_u32_le};
use crate::colour::{colour_string, parse_colour, spec_channel_bits, spec_channels, spec_hex_string, spec_parse_colour};
use crate::encode::{push_bytes, spec_floats_bytes};
use crate::mapper::channels_to_floats;
use crate::error::{MaterialError, MaterialErrorView};
use crate::refs::{default_reference, lookup_reference, spec_default_flags, spec_lookup, ReferenceType, ResourceReference, RuntimeID};
use crate::node::string_from_utf8;
use crate::bytes::read_u32_le;

verus! {

/// The value that a material entity sets for one property. Floats are kept
/// as their bit patterns.
#[derive(Clone, Debug, PartialEq)]
pub enum MaterialOverride {
    Texture(Option<RuntimeID>),
    /// `#rrggbb` or `#rrggbbaa`.
    Color(String),
    Float(u32),
    Vector(Vec<u32>),
}

/// The mathematical value of a `MaterialOverride`.
pub enum OverrideView {
    Texture(Option<RuntimeID>),
    Color(Seq<char>),
    Float(u32),
    Vector(Seq<u32>),
}

impl View for MaterialOverride {
    type V = OverrideView;

    open spec fn view(&self) -> OverrideView {
        match self {
            MaterialOverride::Texture(t) => OverrideView::Texture(*t),
            MaterialOverride::Color(s) => OverrideView::Color(s@),
            MaterialOverride::Float(v) => OverrideView::Float(*v),
            MaterialOverride::Vector(v) => OverrideView::Vector(v@),
        }
    }
}

/// The entries of an override map, in their order.
pub uninterp spec fn override_entries(m: IndexMap<String, MaterialOverride, RandomState>) -> Seq<
    (String, MaterialOverride),
>;

/// The entries with their keys and values as views.
pub open spec fn spec_override_view(s: Seq<(String, MaterialOverride)>) -> Seq<(Seq<char>, OverrideView)> {
    Seq::new(s.len(), |i: int| (s[i].0@, s[i].1@))
}

/// The entries after inserting `(k, v)`: an entry with key `k` keeps its
/// place and takes the value `v`; otherwise the pair goes last.
pub open spec fn spec_override_insert(s: Seq<(Seq<char>, OverrideView)>, k: Seq<char>, v: OverrideView) -> Seq<
    (Seq<char>, OverrideView),
> {
    if exists|i: int| 0 <= i < s.len() && s[i].0 == k {
        let i = choose|i: int| 0 <= i < s.len() && s[i].0 == k;
        s.update(i, (k, v))
    } else {
        s.push((k, v))
    }
}

/// Relies on `IndexMap::new`: a new map is empty.
#[verifier::external_body]
fn new_override_map() -> (m: IndexMap<String, MaterialOverride, RandomState>)
    ensures
        override_entries(m) == Seq::<(String, MaterialOverride)>::empty(),
{
    IndexMap::new()
}

/// Relies on `IndexMap::insert`: where an equal key is present it keeps its
/// place and takes the new value, otherwise the pair is appended.
#[verifier::external_body]
fn insert_override(m: &mut IndexMap<String, MaterialOverride, RandomState>, k: String, v: MaterialOverride)
    ensures
        spec_override_view(override_entries(*final(m))) == spec_override_insert(
            spec_override_view(override_entries(*old(m))),
            k@,
            v@,
        ),
{
    m.insert(k, v);
}

/// A material entity (MATT and MATB).
#[derive(Clone, Debug, PartialEq)]
pub struct MaterialEntity {
    pub factory: RuntimeID,
    pub blueprint: RuntimeID,
    pub material: RuntimeID,
    pub overrides: IndexMap<String, MaterialOverride>,
}

/// The mathematical value of a `MaterialEntity`.
pub struct MaterialEntityView {
    pub factory: RuntimeID,
    pub blueprint: RuntimeID,
    pub material: RuntimeID,
    pub overrides: Seq<(Seq<char>, OverrideView)>,
}

impl View for MaterialEntity {
    type V = MaterialEntityView;

    open spec fn view(&self) -> MaterialEntityView {
        MaterialEntityView {
            factory: self.factory,
            blueprint: self.blueprint,
            material: self.material,
            overrides: spec_override_view(override_entries(self.overrides)),
        }
    }
}

/// The names that the MATB stream holds from `pos` on: entries are read
/// while at least two bytes are left.
pub open spec fn spec_matb_names(buf: Seq<u8>, pos: int) -> Result<Seq<Seq<char>>, MaterialError>
    decreases buf.len() - pos,
{
    if pos < 0 || pos + 1 >= buf.len() {
        Ok(Seq::empty())
    } else if pos + 5 > buf.len() {
        Err(MaterialError::Truncated)
    } else {
        let n = spec_u32_le(buf, pos + 1) as int;
        if pos + 5 + n > buf.len() {
            Err(MaterialError::Truncated)
        } else if n == 0 || !valid_utf8(buf.subrange(pos + 5, pos + 5 + n - 1)) {
            Err(MaterialError::InvalidString)
        } else {
            match spec_matb_names(buf, pos + 5 + n) {
                Err(e) => Err(e),
                Ok(rest) => Ok(seq![decode_utf8(buf.subrange(pos + 5, pos + 5 + n - 1))] + rest),
            }
        }
    }
}

/// The number of floats that a MATT entry of type `t` holds.
pub open spec fn spec_float_count(t: u8) -> int {
    if t == 2 {
        3
    } else if t == 3 {
        4
    } else if t == 4 {
        1
    } else if t == 5 {
        2
    } else if t == 6 {
        3
    } else {
        4
    }
}

/// The `n` little-endian floats at `pos`.
pub open spec fn spec_floats_at(buf: Seq<u8>, pos: int, n: int) -> Seq<u32> {
    Seq::new(n as nat, |i: int| spec_u32_le(buf, pos + 4 * i))
}

/// The value of the MATT entry at `pos` and the position after it.
pub open spec fn spec_matt_value(buf: Seq<u8>, refs: Seq<ResourceReference>, pos: int) -> Result<
    (OverrideView, int),
    MaterialError,
> {
    let t = buf[pos];
    if t == 1 {
        if pos + 5 > buf.len() {
            Err(MaterialError::Truncated)
        } else {
            let index = spec_u32_le(buf, pos + 1);
            match spec_lookup(refs, index) {
                Some(r) => Ok((OverrideView::Texture(r), pos + 5)),
                None => Err(MaterialError::InvalidDependency(index as usize)),
            }
        }
    } else if 2 <= t <= 7 {
        let n = spec_float_count(t);
        if pos + 1 + 4 * n > buf.len() {
            Err(MaterialError::Truncated)
        } else {
            let v = spec_floats_at(buf, pos + 1, n);
            let value = if t == 2 || t == 3 {
                OverrideView::Color(spec_hex_string(spec_channels(v)))
            } else if t == 4 {
                OverrideView::Float(v[0])
            } else {
                OverrideView::Vector(v)
            };
            Ok((value, pos + 1 + 4 * n))
        }
    } else {
        Err(MaterialError::UnrecognisedEntryType(t as u32))
    }
}

/// The overrides that the MATT stream holds from `pos` on, named in order
/// by `names` from index `k` on, inserted one by one into `acc`.
pub open spec fn spec_matt_entries(
    buf: Seq<u8>,
    refs: Seq<ResourceReference>,
    names: Seq<Seq<char>>,
    pos: int,
    k: int,
    acc: Seq<(Seq<char>, OverrideView)>,
) -> Result<Seq<(Seq<char>, OverrideView)>, MaterialError>
    decreases buf.len() - pos,
{
    if pos < 0 || pos + 1 >= buf.len() {
        Ok(acc)
    } else if k < 0 || k >= names.len() {
        Err(MaterialError::EntryCountMismatch)
    } else {
        match spec_matt_value(buf, refs, pos) {
            Err(e) => Err(e),
            Ok((v, next)) => if next <= pos {
                Ok(acc)
            } else {
                spec_matt_entries(buf, refs, names, next, k + 1, spec_override_insert(acc, names[k], v))
            },
        }
    }
}

/// The material entity that the two streams hold.
pub open spec fn spec_parse_entity(
    matt: Seq<u8>,
    factory: RuntimeID,
    refs: Seq<ResourceReference>,
    matb: Seq<u8>,
    blueprint: RuntimeID,
) -> Result<MaterialEntityView, MaterialError> {
    match spec_matb_names(matb, 0) {
        Err(e) => Err(e),
        Ok(names) => match spec_matt_entries(matt, refs, names, 0, 0, Seq::empty()) {
            Err(e) => Err(e),
            Ok(overrides) => if refs.len() <= 2 {
                Err(MaterialError::InvalidDependency(2))
            } else {
                Ok(MaterialEntityView { factory, blueprint, material: refs[2].resource, overrides })
            },
        },
    }
}

/// The views of a list of names.
pub open spec fn spec_names_view(v: Seq<String>) -> Seq<Seq<char>> {
    Seq::new(v.len(), |i: int| v[i]@)
}

/// Reads the names of the MATB stream.
fn matb_names(matb: &[u8]) -> (r: Result<Vec<String>, MaterialError>)
    ensures
        r matches Ok(v) ==> spec_matb_names(matb@, 0) == Ok::<Seq<Seq<char>>, MaterialError>(spec_names_view(v@)),
        r matches Err(e) ==> spec_matb_names(matb@, 0) == Err::<Seq<Seq<char>>, MaterialError>(e),
{
    let len = matb.len();
    let mut names: Vec<String> = Vec::new();
    let mut pos: usize = 0;
    assert(spec_names_view(names@) + Seq::<Seq<char>>::empty() =~= spec_names_view(names@));
    while len - pos > 1
        invariant
            len == matb@.len(),
            pos <= len,
            spec_matb_names(matb@, 0) == match spec_matb_names(matb@, pos as int) {
                Ok(rest) => Ok::<Seq<Seq<char>>, MaterialError>(spec_names_view(names@) + rest),
                Err(e) => Err(e),
            },
        decreases len - pos,
    {
        if len - pos < 5 {
            return Err(MaterialError::Truncated);
        }
        let n = read_u32_le(matb, pos + 1) as usize;
        if len - pos - 5 < n {
            return Err(MaterialError::Truncated);
        }
        if n == 0 {
            return Err(MaterialError::InvalidString);
        }
        let mut text: Vec<u8> = Vec::new();
        let mut i: usize = 0;
        while i < n - 1
            invariant
                len == matb@.len(),
                pos + 5 + n <= len,
                i <= n - 1,
                text@ == matb@.subrange(pos + 5, pos + 5 + i),
            decreases n - 1 - i,
        {
            text.push(matb[pos + 5 + i]);
            i = i + 1;
            assert(text@ =~= matb@.subrange(pos + 5, pos + 5 + i));
        }
        match string_from_utf8(text) {
            Some(s) => {
                let ghost before = spec_names_view(names@);
                let ghost sv = s@;
                names.push(s);
                assert(spec_names_view(names@) =~= before.push(sv));
                proof {
                    match spec_matb_names(matb@, pos + 5 + n) {
                        Ok(rest) => {
                            assert(before + (seq![sv] + rest) =~= before.push(sv) + rest);
                        },
                        Err(_) => {},
                    }
                }
            },
            None => {
                return Err(MaterialError::InvalidString);
            },
        }
        pos = pos + 5 + n;
    }
    Ok(names)
}

/// Reads the `n` floats at `pos`.
fn floats_at(data: &[u8], pos: usize, n: usize) -> (r: Vec<u32>)
    requires
        pos + 4 * n <= data@.len(),
    ensures
        r@ == spec_floats_at(data@, pos as int, n as int),
{
    let len = data.len();
    let mut v: Vec<u32> = Vec::new();
    let mut i: usize = 0;
    while i < n
        invariant
            i <= n,
            len == data@.len(),
            pos + 4 * n <= data@.len(),
            v@ == spec_floats_at(data@, pos as int, i as int),
        decreases n - i,
    {
        v.push(read_u32_le(data, pos + 4 * i));
        i = i + 1;
        assert(v@ =~= spec_floats_at(data@, pos as int, i as int));
    }
    v
}

/// Reads the value of the MATT entry at `pos`.
fn matt_value(matt: &[u8], refs: &[ResourceReference], pos: usize) -> (r: Result<(MaterialOverride, usize), MaterialError>)
    requires
        pos < matt@.len(),
    ensures
        r matches Ok((v, q)) ==> spec_matt_value(matt@, refs@, pos as int) == Ok::<(OverrideView, int), MaterialError>(
            (v@, q as int),
        ),
        r matches Err(e) ==> spec_matt_value(matt@, refs@, pos as int) == Err::<(OverrideView, int), MaterialError>(e),
{
    let len = matt.len();
    let t = matt[pos];
    if t == 1 {
        if len - pos < 5 {
            return Err(MaterialError::Truncated);
        }
        let index = read_u32_le(matt, pos + 1);
        match lookup_reference(refs, index) {
            Some(r) => Ok((MaterialOverride::Texture(r), pos + 5)),
            None => Err(MaterialError::InvalidDependency(index as usize)),
        }
    } else if 2 <= t && t <= 7 {
        let n: usize = if t == 2 {
            3
        } else if t == 3 {
            4
        } else if t == 4 {
            1
        } else if t == 5 {
            2
        } else if t == 6 {
            3
        } else {
            4
        };
        if len - pos - 1 < 4 * n {
            return Err(MaterialError::Truncated);
        }
        let v = floats_at(matt, pos + 1, n);
        let value = if t == 2 || t == 3 {
            MaterialOverride::Color(colour_string(&v))
        } else if t == 4 {
            MaterialOverride::Float(v[0])
        } else {
            MaterialOverride::Vector(v)
        };
        Ok((value, pos + 1 + 4 * n))
    } else {
        Err(MaterialError::UnrecognisedEntryType(t as u32))
    }
}

impl MaterialEntity {
    /// Parses a material entity from its MATT stream, with identifier
    /// `factory` and reference table `matt_references` (whose third entry
    /// is the material), and its MATB stream, with identifier `blueprint`.
    pub fn parse(
        matt_data: &[u8],
        factory: RuntimeID,
        matt_references: &[ResourceReference],
        matb_data: &[u8],
        blueprint: RuntimeID,
    ) -> (r: Result<MaterialEntity, MaterialError>)
        ensures
            r matches Ok(m) ==> spec_parse_entity(matt_data@, factory, matt_references@, matb_data@, blueprint)
                == Ok::<MaterialEntityView, MaterialError>(m@),
            r matches Err(e) ==> spec_parse_entity(matt_data@, factory, matt_references@, matb_data@, blueprint)
                == Err::<MaterialEntityView, MaterialError>(e),
    {
        let names = match matb_names(matb_data) {
            Ok(n) => n,
            Err(e) => {
                return Err(e);
            },
        };
        let ghost nv = spec_names_view(names@);
        let len = matt_data.len();
        let mut overrides = new_override_map();
        assert(spec_override_view(override_entries(overrides)) =~= Seq::<(Seq<char>, OverrideView)>::empty());
        let mut pos: usize = 0;
        let mut k: usize = 0;
        while len - pos > 1
            invariant
                len == matt_data@.len(),
                pos <= len,
                nv == spec_names_view(names@),
                spec_parse_entity(matt_data@, factory, matt_references@, matb_data@, blueprint) == match spec_matt_entries(
                    matt_data@,
                    matt_references@,
                    nv,
                    pos as int,
                    k as int,
                    spec_override_view(override_entries(overrides)),
                ) {
                    Err(e) => Err(e),
                    Ok(o) => if matt_references@.len() <= 2 {
                        Err(MaterialError::InvalidDependency(2))
                    } else {
                        Ok(
                            MaterialEntityView {
                                factory,
                                blueprint,
                                material: matt_references@[2].resource,
                                overrides: o,
                            },
                        )
                    },
                },
            decreases len - pos,
        {
            if k >= names.len() {
                return Err(MaterialError::EntryCountMismatch);
            }
            match matt_value(matt_data, matt_references, pos) {
                Ok((v, next)) => {
                    let name = names[k].clone();
                    insert_override(&mut overrides, name, v);
                    pos = next;
                    k = k + 1;
                },
                Err(e) => {
                    return Err(e);
                },
            }
        }
        if matt_references.len() <= 2 {
            return Err(MaterialError::InvalidDependency(2));
        }
        Ok(MaterialEntity { factory, blueprint, material: matt_references[2].resource, overrides })
    }
}

/// Relies on `IndexMap`'s by-value iterator: it hands out the entries in
/// their order.
#[verifier::external_body]
fn into_override_entries(m: IndexMap<String, MaterialOverride, RandomState>) -> (r: Vec<(String, MaterialOverride)>)
    ensures
        r@ == override_entries(m),
{
    m.into_iter().collect()
}

/// The identifier that every MATT stream names first.
pub const MATT_FIRST_REFERENCE: u64 = 0x00B4_B11D_A327_CAD0;

/// The identifier that every MATB stream names.
pub const MATB_REFERENCE: u64 = 0x00A1_595C_0918_E2C9;

/// The MATT type byte of a colour with `n` channels.
pub open spec fn spec_colour_type(n: nat) -> u8 {
    if n == 4 {
        3
    } else {
        2
    }
}

/// The MATT and MATB streams of the overrides `s` and the textures they add
/// to a table that holds three entries before them.
pub open spec fn spec_entity_streams(s: Seq<(Seq<char>, OverrideView)>) -> Result<
    (Seq<u8>, Seq<u8>, Seq<ResourceReference>),
    MaterialError,
>
    decreases s.len(),
{
    if s.len() == 0 {
        Ok((Seq::empty(), Seq::empty(), Seq::empty()))
    } else {
        match spec_entity_streams(s.subrange(0, s.len() - 1)) {
            Err(e) => Err(e),
            Ok((matt, matb, textures)) => {
                let name = encode_utf8(s[s.len() - 1].0);
                let named = spec_u32_bytes((name.len() + 1) as u32) + name + seq![0u8];
                match s[s.len() - 1].1 {
                    OverrideView::Texture(Some(id)) => Ok(
                        (
                            matt + seq![1u8] + spec_u32_bytes((3 + textures.len()) as u32),
                            matb + seq![1u8] + named,
                            textures.push(
                                ResourceReference { resource: id, flags: spec_default_flags(ReferenceType::Normal) },
                            ),
                        ),
                    ),
                    OverrideView::Texture(None) => Ok(
                        (matt + seq![1u8] + spec_u32_bytes(0xFFFF_FFFF), matb + seq![1u8] + named, textures),
                    ),
                    OverrideView::Color(c) => match spec_parse_colour(c) {
                        None => Err(MaterialError::InvalidHex),
                        Some(b) => {
                            let t = spec_colour_type(b.len());
                            Ok(
                                (
                                    matt + seq![t] + spec_floats_bytes(
                                        Seq::new(b.len(), |i: int| spec_channel_bits(b[i])),
                                    ),
                                    matb + seq![t] + named,
                                    textures,
                                ),
                            )
                        },
                    },
                    OverrideView::Float(x) => Ok((matt + seq![4u8] + spec_u32_bytes(x), matb + seq![4u8] + named, textures)),
                    OverrideView::Vector(v) => if 2 <= v.len() <= 4 {
                        let t = (v.len() + 3) as u8;
                        Ok((matt + seq![t] + spec_floats_bytes(v), matb + seq![t] + named, textures))
                    } else {
                        Err(MaterialError::InvalidVector)
                    },
                }
            },
        }
    }
}

/// The first entries of every MATT reference table.
pub open spec fn spec_matt_head(e: MaterialEntityView) -> Seq<ResourceReference> {
    seq![
        ResourceReference { resource: RuntimeID(MATT_FIRST_REFERENCE), flags: spec_default_flags(ReferenceType::Normal) },
        ResourceReference { resource: e.blueprint, flags: spec_default_flags(ReferenceType::Normal) },
        ResourceReference { resource: e.material, flags: spec_default_flags(ReferenceType::Normal) },
    ]
}

/// Appends the little-endian bytes of the floats `v`.
fn push_floats(out: &mut Vec<u8>, v: &Vec<u32>)
    ensures
        final(out)@ == old(out)@ + spec_floats_bytes(v@),
{
    let mut i: usize = 0;
    while i < v.len()
        invariant
            i <= v@.len(),
            out@ == old(out)@ + spec_floats_bytes(v@.take(i as int)),
        decreases v@.len() - i,
    {
        push_u32_le(out, v[i]);
        proof {
            assert(v@.take(i + 1).subrange(0, i as int) =~= v@.take(i as int));
        }
        i = i + 1;
        assert(out@ =~= old(out)@ + spec_floats_bytes(v@.take(i as int)));
    }
    assert(v@.take(v@.len() as int) =~= v@);
}

proof fn lemma_streams_error_stays(s: Seq<(Seq<char>, OverrideView)>, i: int, e: MaterialError)
    requires
        0 <= i <= s.len(),
        spec_entity_streams(s.take(i)) == Err::<(Seq<u8>, Seq<u8>, Seq<ResourceReference>), MaterialError>(e),
    ensures
        spec_entity_streams(s) == Err::<(Seq<u8>, Seq<u8>, Seq<ResourceReference>), MaterialError>(e),
    decreases s.len() - i,
{
    if i < s.len() {
        assert(s.take(i + 1).subrange(0, i) =~= s.take(i));
        lemma_streams_error_stays(s, i + 1, e);
    } else {
        assert(s.take(i) =~= s);
    }
}

impl MaterialEntity {
    /// Writes the MATT and MATB streams of this entity with their reference
    /// tables. Every override is written to both streams with its type byte.
    /// A float vector of other than two, three or four elements is an
    /// `InvalidVector` error, and a malformed colour an `InvalidHex` error.
    pub fn generate(self) -> (r: Result<((Vec<u8>, Vec<ResourceReference>), (Vec<u8>, Vec<ResourceReference>)), MaterialError>)
        requires
            override_entries(self.overrides).len() + 3 < u32::MAX,
            forall|i: int|
                0 <= i < override_entries(self.overrides).len() ==> encode_utf8(
                    #[trigger] override_entries(self.overrides)[i].0@,
                ).len() < u32::MAX,
        ensures
            r matches Ok(((matt, matt_refs), (matb, matb_refs))) ==> {
                &&& spec_entity_streams(self@.overrides) matches Ok((t, b, textures))
                &&& matt@ == t
                &&& matb@ == b
                &&& matt_refs@ == spec_matt_head(self@) + textures
                &&& matb_refs@ == seq![
                    ResourceReference { resource: RuntimeID(MATB_REFERENCE), flags: spec_default_flags(ReferenceType::Normal) },
                ]
            },
            r matches Err(e) ==> spec_entity_streams(self@.overrides) == Err::<
                (Seq<u8>, Seq<u8>, Seq<ResourceReference>),
                MaterialError,
            >(e),
    {
        let ghost ev = self@;
        let entries = into_override_entries(self.overrides);
        let ghost sv = spec_override_view(entries@);
        let mut matt: Vec<u8> = Vec::new();
        let mut matb: Vec<u8> = Vec::new();
        let mut refs: Vec<ResourceReference> = Vec::new();
        refs.push(default_reference(RuntimeID(MATT_FIRST_REFERENCE), ReferenceType::Normal));
        refs.push(default_reference(self.blueprint, ReferenceType::Normal));
        refs.push(default_reference(self.material, ReferenceType::Normal));
        assert(refs@ =~= spec_matt_head(ev) + Seq::<ResourceReference>::empty());
        assert(sv.take(0) =~= Seq::<(Seq<char>, OverrideView)>::empty());
        let mut i: usize = 0;
        while i < entries.len()
            invariant
                i <= entries@.len(),
                sv == spec_override_view(entries@),
                sv == ev.overrides,
                ev == self@,
                entries@.len() + 3 < u32::MAX,
                forall|j: int| 0 <= j < entries@.len() ==> encode_utf8(#[trigger] entries@[j].0@).len() < u32::MAX,
                spec_entity_streams(sv.take(i as int)) matches Ok((t, b, textures)) && matt@ == t && matb@ == b
                    && refs@ == spec_matt_head(ev) + textures && textures.len() <= i,
            decreases entries@.len() - i,
        {
            proof {
                assert(sv.take(i + 1).subrange(0, i as int) =~= sv.take(i as int));
                assert(sv.take(i + 1)[i as int] == sv[i as int]);
                assert(sv[i as int] == (entries@[i as int].0@, entries@[i as int].1@));
            }
            let (name, value) = &entries[i];
            let ghost prev_t = matt@;
            let ghost prev_b = matb@;
            let ghost prev_refs = refs@;
            let t: u8 = match value {
                MaterialOverride::Texture(Some(id)) => {
                    refs.push(default_reference(*id, ReferenceType::Normal));
                    matt.push(1u8);
                    push_u32_le(&mut matt, (refs.len() - 1) as u32);
                    1
                },
                MaterialOverride::Texture(None) => {
                    matt.push(1u8);
                    push_u32_le(&mut matt, 0xFFFF_FFFF);
                    1
                },
                MaterialOverride::Color(c) => match parse_colour(c) {
                    None => {
                        proof {
                            lemma_streams_error_stays(sv, i + 1, MaterialError::InvalidHex);
                        }
                        return Err(MaterialError::InvalidHex);
                    },
                    Some(bytes) => {
                        let t: u8 = if bytes.len() == 4 { 3 } else { 2 };
                        let floats = channels_to_floats(&bytes);
                        matt.push(t);
                        push_floats(&mut matt, &floats);
                        t
                    },
                },
                MaterialOverride::Float(x) => {
                    matt.push(4u8);
                    push_u32_le(&mut matt, *x);
                    4
                },
                MaterialOverride::Vector(v) => {
                    if v.len() < 2 || v.len() > 4 {
                        proof {
                            lemma_streams_error_stays(sv, i + 1, MaterialError::InvalidVector);
                        }
                        return Err(MaterialError::InvalidVector);
                    }
                    let t = (v.len() + 3) as u8;
                    matt.push(t);
                    push_floats(&mut matt, v);
                    t
                },
            };
            let nb = name.as_str().as_bytes();
            matb.push(t);
            push_u32_le(&mut matb, (nb.len() + 1) as u32);
            push_bytes(&mut matb, nb);
            matb.push(0u8);
            proof {
                let named = spec_u32_bytes((nb@.len() + 1) as u32) + nb@ + seq![0u8];
                assert(matb@ =~= prev_b + seq![t] + named);
                match value {
                    MaterialOverride::Texture(Some(id)) => {
                        assert(matt@ =~= prev_t + seq![1u8] + spec_u32_bytes((refs@.len() - 1) as u32));
                    },
                    MaterialOverride::Texture(None) => {
                        assert(matt@ =~= prev_t + seq![1u8] + spec_u32_bytes(0xFFFF_FFFF));
                    },
                    MaterialOverride::Float(x) => {
                        assert(matt@ =~= prev_t + seq![4u8] + spec_u32_bytes(*x));
                    },
                    _ => {},
                }
            }
            i = i + 1;
        }
        assert(sv.take(entries@.len() as int) =~= sv);
        let mut matb_refs: Vec<ResourceReference> = Vec::new();
        matb_refs.push(default_reference(RuntimeID(MATB_REFERENCE), ReferenceType::Normal));
        assert(matb_refs@ =~= seq![
            ResourceReference { resource: RuntimeID(MATB_REFERENCE), flags: spec_default_flags(ReferenceType::Normal) },
        ]);
        Ok(((matt, refs), (matb, matb_refs)))
    }
}

} // verus!
