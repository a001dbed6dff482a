//! Mapping between the generic property tree and the structured
//! material model.

use vstd::prelude::*;
use crate::colour::{lemma_channels_round_trip, channel_to_bits, colour_string, parse_colour, spec_channel_bits, spec_channels, spec_hex_string, spec_parse_colour};
use crate::error::{MaterialError, MaterialErrorView};
use crate::model::{spec_keys_unique, 
    insert_property, new_property_map, spec_entries_view, spec_insert, Binder, BinderView,
    MaterialPropertyValue, PropertyView, RenderState, RenderStateView,
};
use crate::node::{lemma_spec_views, spec_views, FloatVal, IntermediateMaterialProperty, NodeView};
use crate::refs::RuntimeID;
use crate::tags::{FloatTag, IntTag, NestedTag, TextTag, TAG_TXID, TAG_VALU};
use crate::vocab::{BlendMode, CullingMode};

verus! {

/// What a lookup among child nodes looks for.
#[derive(Clone, Copy, Debug, PartialEq, Eq, Structural)]
pub enum Wanted {
    Text(TextTag),
    Int(IntTag),
    Float(FloatTag),
    Nested(NestedTag),
    /// A `VALU` node, single or vector.
    Value,
    /// A `TXID` node.
    TextureId,
}

/// Whether node `n` is what `w` looks for.
pub open spec fn spec_wanted(w: Wanted, n: NodeView) -> bool {
    match (w, n) {
        (Wanted::Text(t), NodeView::Text(u, _)) => t == u,
        (Wanted::Int(t), NodeView::Int(u, _)) => t == u,
        (Wanted::Float(t), NodeView::Float(u, _)) => t == u,
        (Wanted::Nested(t), NodeView::Nested(u, _)) => t == u,
        (Wanted::Value, NodeView::Single(_)) => true,
        (Wanted::Value, NodeView::Vector(_)) => true,
        (Wanted::TextureId, NodeView::TextureID(_)) => true,
        _ => false,
    }
}

/// The index of the first node from `i` on that `w` looks for.
pub open spec fn spec_find_from(c: Seq<NodeView>, w: Wanted, i: int) -> Option<int>
    decreases c.len() - i,
{
    if i < 0 || i >= c.len() {
        None
    } else if spec_wanted(w, c[i]) {
        Some(i)
    } else {
        spec_find_from(c, w, i + 1)
    }
}

/// The first node that `w` looks for.
pub open spec fn spec_find(c: Seq<NodeView>, w: Wanted) -> Option<NodeView> {
    match spec_find_from(c, w, 0) {
        Some(i) => Some(c[i]),
        None => None,
    }
}

/// The error for a missing child with the tag `code`.
pub open spec fn spec_missing(code: u32) -> MaterialErrorView {
    MaterialErrorView::Other(MaterialError::RequiredPropertyNotFound(code))
}

/// The string of the first text child with tag `t`, which must be there.
pub open spec fn spec_req_text(c: Seq<NodeView>, t: TextTag) -> Result<Seq<char>, MaterialErrorView> {
    match spec_find(c, Wanted::Text(t)) {
        Some(NodeView::Text(_, s)) => Ok(s),
        _ => Err(spec_missing(t.spec_code())),
    }
}

/// The string of the first text child with tag `t`, if any.
pub open spec fn spec_opt_text(c: Seq<NodeView>, t: TextTag) -> Option<Seq<char>> {
    match spec_find(c, Wanted::Text(t)) {
        Some(NodeView::Text(_, s)) => Some(s),
        _ => None,
    }
}

/// The value of the first integer child with tag `t`, if any.
pub open spec fn spec_opt_int(c: Seq<NodeView>, t: IntTag) -> Option<u32> {
    match spec_find(c, Wanted::Int(t)) {
        Some(NodeView::Int(_, v)) => Some(v),
        _ => None,
    }
}

/// The value of the first float child with tag `t`, if any.
pub open spec fn spec_opt_float(c: Seq<NodeView>, t: FloatTag) -> Option<u32> {
    match spec_find(c, Wanted::Float(t)) {
        Some(NodeView::Float(_, v)) => Some(v),
        _ => None,
    }
}

/// Whether an integer flag is set, if it is there.
pub open spec fn spec_flag(x: Option<u32>) -> Option<bool> {
    match x {
        Some(v) => Some(v != 0),
        None => None,
    }
}

/// The render state that the children `c` of a render-state node describe.
pub open spec fn spec_parse_render_state(c: Seq<NodeView>) -> Result<RenderStateView, MaterialErrorView> {
    match spec_opt_text(c, TextTag::CullingMode) {
        None => Err(spec_missing(TextTag::CullingMode.spec_code())),
        Some(cs) => match CullingMode::spec_from_name(cs) {
            None => Err(MaterialErrorView::InvalidCullingMode(cs)),
            Some(culling_mode) => {
                let blend = match spec_opt_text(c, TextTag::BlendMode) {
                    None => Ok(None),
                    Some(s) => match BlendMode::spec_from_name(s) {
                        Some(b) => Ok(Some(b)),
                        None => Err(MaterialErrorView::InvalidBlendMode(s)),
                    },
                };
                match blend {
                    Err(e) => Err(e),
                    Ok(blend_mode) => Ok(
                        RenderStateView {
                            name: spec_opt_text(c, TextTag::Name),
                            enabled: spec_flag(spec_opt_int(c, IntTag::Enabled)),
                            blend_enabled: spec_flag(spec_opt_int(c, IntTag::BlendEnabled)),
                            blend_mode,
                            decal_blend_diffuse: spec_opt_int(c, IntTag::DecalBlendDiffuse),
                            decal_blend_normal: spec_opt_int(c, IntTag::DecalBlendNormal),
                            decal_blend_specular: spec_opt_int(c, IntTag::DecalBlendSpecular),
                            decal_blend_roughness: spec_opt_int(c, IntTag::DecalBlendRoughness),
                            decal_blend_emission: spec_opt_int(c, IntTag::DecalBlendEmission),
                            alpha_test_enabled: spec_flag(spec_opt_int(c, IntTag::AlphaTestEnabled)),
                            alpha_reference: spec_opt_int(c, IntTag::AlphaReference),
                            fog_enabled: spec_flag(spec_opt_int(c, IntTag::FogEnabled)),
                            opacity: spec_opt_float(c, FloatTag::Opacity),
                            culling_mode,
                            z_bias: spec_opt_int(c, IntTag::ZBias),
                            z_offset: spec_opt_float(c, FloatTag::ZOffset),
                            subsurface_red: spec_opt_float(c, FloatTag::SubsurfaceRed),
                            subsurface_green: spec_opt_float(c, FloatTag::SubsurfaceGreen),
                            subsurface_blue: spec_opt_float(c, FloatTag::SubsurfaceBlue),
                            subsurface_value: spec_opt_float(c, FloatTag::SubsurfaceValue),
                        },
                    ),
                }
            },
        },
    }
}

/// A render state without a culling mode is refused, naming the culling
/// tag, whatever else it holds.
pub proof fn lemma_culling_mode_required(c: Seq<NodeView>)
    requires
        spec_find(c, Wanted::Text(TextTag::CullingMode)) is None,
    ensures
        spec_parse_render_state(c) == Err::<RenderStateView, MaterialErrorView>(
            spec_missing(TextTag::CullingMode.spec_code()),
        ),
{
}

/// A binder whose render state lacks a culling mode is refused, naming the
/// culling tag.
pub proof fn lemma_binder_needs_culling_mode(b: Seq<NodeView>, rs: Seq<NodeView>)
    requires
        spec_find(b, Wanted::Nested(NestedTag::RenderState)) == Some(NodeView::Nested(NestedTag::RenderState, rs)),
        spec_find(rs, Wanted::Text(TextTag::CullingMode)) is None,
    ensures
        spec_parse_binder(b) == Err::<BinderView, MaterialErrorView>(spec_missing(TextTag::CullingMode.spec_code())),
{
}

/// The name and value of a colour property with `arity` channels.
pub open spec fn spec_parse_colour_property(x: Seq<NodeView>, arity: nat) -> Result<
    (Seq<char>, PropertyView),
    MaterialErrorView,
> {
    match spec_req_text(x, TextTag::Name) {
        Err(e) => Err(e),
        Ok(name) => match spec_find(x, Wanted::Int(IntTag::Enabled)) {
            Some(NodeView::Int(_, enabled)) => match spec_find(x, Wanted::Value) {
                Some(NodeView::Vector(v)) => if v.len() == arity {
                    Ok(
                        (
                            name,
                            PropertyView::Colour {
                                enabled: enabled != 0,
                                value: spec_hex_string(spec_channels(v)),
                            },
                        ),
                    )
                } else {
                    Err(MaterialErrorView::InvalidColor(name))
                },
                Some(_) => Err(MaterialErrorView::InvalidColor(name)),
                None => Err(spec_missing(TAG_VALU)),
            },
            _ => Err(spec_missing(IntTag::Enabled.spec_code())),
        },
    }
}

/// The name and value of the property that a child of a binder node holds.
pub open spec fn spec_parse_property(n: NodeView) -> Result<(Seq<char>, PropertyView), MaterialErrorView> {
    match n {
        NodeView::Nested(NestedTag::FloatValue, x) => match spec_req_text(x, TextTag::Name) {
            Err(e) => Err(e),
            Ok(name) => match spec_find(x, Wanted::Int(IntTag::Enabled)) {
                Some(NodeView::Int(_, enabled)) => match spec_find(x, Wanted::Value) {
                    Some(NodeView::Single(v)) => Ok(
                        (name, PropertyView::Float { enabled: enabled != 0, value: v }),
                    ),
                    Some(NodeView::Vector(v)) => Ok(
                        (name, PropertyView::Vector { enabled: enabled != 0, value: v }),
                    ),
                    _ => Err(spec_missing(TAG_VALU)),
                },
                _ => Err(spec_missing(IntTag::Enabled.spec_code())),
            },
        },
        NodeView::Nested(NestedTag::Texture, x) => match spec_req_text(x, TextTag::Name) {
            Err(e) => Err(e),
            Ok(name) => match spec_find(x, Wanted::Int(IntTag::Enabled)) {
                Some(NodeView::Int(_, enabled)) => match spec_req_text(x, TextTag::TilingU) {
                    Err(e) => Err(e),
                    Ok(tiling_u) => match spec_req_text(x, TextTag::TilingV) {
                        Err(e) => Err(e),
                        Ok(tiling_v) => match spec_find(x, Wanted::TextureId) {
                            Some(NodeView::TextureID(value)) => match spec_req_text(x, TextTag::Type) {
                                Err(e) => Err(e),
                                Ok(texture_type) => Ok(
                                    (
                                        name,
                                        PropertyView::Texture {
                                            enabled: enabled != 0,
                                            value,
                                            tiling_u,
                                            tiling_v,
                                            texture_type,
                                        },
                                    ),
                                ),
                            },
                            _ => Err(spec_missing(TAG_TXID)),
                        },
                    },
                },
                _ => Err(spec_missing(IntTag::Enabled.spec_code())),
            },
        },
        NodeView::Nested(NestedTag::Color, x) => spec_parse_colour_property(x, 3),
        NodeView::Nested(NestedTag::Color4, x) => spec_parse_colour_property(x, 4),
        _ => Err(MaterialErrorView::PropertyAtWrongLevel(n)),
    }
}

/// The property map that the children `b` of a binder node describe: each
/// child other than a render state, in order, inserted into the map.
pub open spec fn spec_parse_properties(b: Seq<NodeView>) -> Result<Seq<(Seq<char>, PropertyView)>, MaterialErrorView>
    decreases b.len(),
{
    if b.len() == 0 {
        Ok(Seq::empty())
    } else {
        match spec_parse_properties(b.subrange(0, b.len() - 1)) {
            Err(e) => Err(e),
            Ok(s) => {
                let n = b[b.len() - 1];
                if spec_wanted(Wanted::Nested(NestedTag::RenderState), n) {
                    Ok(s)
                } else {
                    match spec_parse_property(n) {
                        Err(e) => Err(e),
                        Ok((k, v)) => Ok(spec_insert(s, k, v)),
                    }
                }
            },
        }
    }
}

/// The binder that the children `b` of a binder node describe.
pub open spec fn spec_parse_binder(b: Seq<NodeView>) -> Result<BinderView, MaterialErrorView> {
    match spec_find(b, Wanted::Nested(NestedTag::RenderState)) {
        Some(NodeView::Nested(_, rs)) => match spec_parse_render_state(rs) {
            Err(e) => Err(e),
            Ok(render_state) => match spec_parse_properties(b) {
                Err(e) => Err(e),
                Ok(properties) => Ok(BinderView { render_state, properties }),
            },
        },
        _ => Err(spec_missing(NestedTag::RenderState.spec_code())),
    }
}

/// The name, tags and binder that an instance node describes.
pub open spec fn spec_parse_instance(n: NodeView) -> Result<(Seq<char>, Seq<char>, BinderView), MaterialErrorView> {
    match n {
        NodeView::Nested(NestedTag::Instance, c) => match spec_req_text(c, TextTag::Name) {
            Err(e) => Err(e),
            Ok(name) => match spec_req_text(c, TextTag::Tags) {
                Err(e) => Err(e),
                Ok(tags) => match spec_find(c, Wanted::Nested(NestedTag::Binder)) {
                    Some(NodeView::Nested(_, b)) => match spec_parse_binder(b) {
                        Err(e) => Err(e),
                        Ok(binder) => Ok((name, tags, binder)),
                    },
                    _ => Err(spec_missing(NestedTag::Binder.spec_code())),
                },
            },
        },
        _ => Err(MaterialErrorView::Other(MaterialError::InstanceNotTopLevel)),
    }
}

/// Whether node `n` is what `w` looks for.
fn wanted(w: Wanted, n: &IntermediateMaterialProperty) -> (r: bool)
    ensures
        r == spec_wanted(w, n@),
{
    match (w, n) {
        (Wanted::Text(t), IntermediateMaterialProperty::Text(u, _)) => t == *u,
        (Wanted::Int(t), IntermediateMaterialProperty::Int(u, _)) => t == *u,
        (Wanted::Float(t), IntermediateMaterialProperty::Float(u, _)) => t == *u,
        (Wanted::Nested(t), IntermediateMaterialProperty::Nested(u, _)) => t == *u,
        (Wanted::Value, IntermediateMaterialProperty::Value(_)) => true,
        (Wanted::TextureId, IntermediateMaterialProperty::TextureID(_)) => true,
        _ => false,
    }
}

/// The index of the first child that `w` looks for.
fn find_child(c: &Vec<IntermediateMaterialProperty>, w: Wanted) -> (r: Option<usize>)
    ensures
        r matches Some(i) ==> spec_find_from(spec_views(c@), w, 0) == Some(i as int) && i < c@.len()
            && spec_wanted(w, c@[i as int]@) && spec_views(c@)[i as int] == c@[i as int]@,
        r is None ==> spec_find_from(spec_views(c@), w, 0) is None,
{
    let ghost cv = spec_views(c@);
    proof {
        lemma_spec_views(c@);
    }
    let mut i: usize = 0;
    while i < c.len()
        invariant
            i <= c@.len(),
            cv == spec_views(c@),
            cv.len() == c@.len(),
            forall|j: int| 0 <= j < c@.len() ==> #[trigger] cv[j] == c@[j]@,
            spec_find_from(cv, w, 0) == spec_find_from(cv, w, i as int),
        decreases c@.len() - i,
    {
        if wanted(w, &c[i]) {
            return Some(i);
        }
        i = i + 1;
    }
    None
}

/// A copy of a float vector.
fn copy_floats(v: &Vec<u32>) -> (r: Vec<u32>)
    ensures
        r@ == v@,
{
    let mut r: Vec<u32> = Vec::new();
    let mut i: usize = 0;
    while i < v.len()
        invariant
            i <= v@.len(),
            r@ == v@.take(i as int),
        decreases v@.len() - i,
    {
        r.push(v[i]);
        i = i + 1;
        assert(r@ =~= v@.take(i as int));
    }
    assert(v@.take(v@.len() as int) =~= v@);
    r
}

/// The string of the first text child with tag `t`, if any.
fn opt_text(c: &Vec<IntermediateMaterialProperty>, t: TextTag) -> (r: Option<String>)
    ensures
        r matches Some(s) ==> spec_opt_text(spec_views(c@), t) == Some(s@),
        r is None ==> spec_opt_text(spec_views(c@), t) is None,
{
    proof {
        lemma_spec_views(c@);
    }
    match find_child(c, Wanted::Text(t)) {
        Some(i) => match &c[i] {
            IntermediateMaterialProperty::Text(_, s) => Some(s.clone()),
            _ => None,
        },
        None => None,
    }
}

/// The string of the first text child with tag `t`, which must be there.
fn req_text(c: &Vec<IntermediateMaterialProperty>, t: TextTag) -> (r: Result<String, MaterialError>)
    ensures
        r matches Ok(s) ==> spec_req_text(spec_views(c@), t) == Ok::<Seq<char>, MaterialErrorView>(s@),
        r matches Err(e) ==> spec_req_text(spec_views(c@), t) == Err::<Seq<char>, MaterialErrorView>(e@),
{
    match opt_text(c, t) {
        Some(s) => Ok(s),
        None => Err(MaterialError::RequiredPropertyNotFound(t.code())),
    }
}

/// The value of the first integer child with tag `t`, if any.
fn opt_int(c: &Vec<IntermediateMaterialProperty>, t: IntTag) -> (r: Option<u32>)
    ensures
        r == spec_opt_int(spec_views(c@), t),
{
    proof {
        lemma_spec_views(c@);
    }
    match find_child(c, Wanted::Int(t)) {
        Some(i) => match &c[i] {
            IntermediateMaterialProperty::Int(_, v) => Some(*v),
            _ => None,
        },
        None => None,
    }
}

/// The value of the first float child with tag `t`, if any.
fn opt_float(c: &Vec<IntermediateMaterialProperty>, t: FloatTag) -> (r: Option<u32>)
    ensures
        r == spec_opt_float(spec_views(c@), t),
{
    proof {
        lemma_spec_views(c@);
    }
    match find_child(c, Wanted::Float(t)) {
        Some(i) => match &c[i] {
            IntermediateMaterialProperty::Float(_, v) => Some(*v),
            _ => None,
        },
        None => None,
    }
}

/// The children of the first nested child with tag `t`, if any.
fn opt_nested(c: &Vec<IntermediateMaterialProperty>, t: NestedTag) -> (r: Option<&Vec<IntermediateMaterialProperty>>)
    ensures
        r matches Some(v) ==> spec_find(spec_views(c@), Wanted::Nested(t)) == Some(NodeView::Nested(t, spec_views(v@))),
        r is None ==> spec_find(spec_views(c@), Wanted::Nested(t)) is None,
{
    proof {
        lemma_spec_views(c@);
    }
    match find_child(c, Wanted::Nested(t)) {
        Some(i) => match &c[i] {
            IntermediateMaterialProperty::Nested(_, v) => Some(v),
            _ => None,
        },
        None => None,
    }
}

/// Whether an integer flag is set, if it is there.
fn flag(x: Option<u32>) -> (r: Option<bool>)
    ensures
        r == spec_flag(x),
{
    match x {
        Some(v) => Some(v != 0),
        None => None,
    }
}

/// Reads the render state from the children of a render-state node.
fn parse_render_state(c: &Vec<IntermediateMaterialProperty>) -> (r: Result<RenderState, MaterialError>)
    ensures
        r matches Ok(s) ==> spec_parse_render_state(spec_views(c@)) == Ok::<RenderStateView, MaterialErrorView>(s@),
        r matches Err(e) ==> spec_parse_render_state(spec_views(c@)) == Err::<RenderStateView, MaterialErrorView>(e@),
{
    let culling_mode = match opt_text(c, TextTag::CullingMode) {
        None => {
            return Err(MaterialError::RequiredPropertyNotFound(TextTag::CullingMode.code()));
        },
        Some(s) => match CullingMode::from_name(&s) {
            Ok(m) => m,
            Err(e) => {
                return Err(e);
            },
        },
    };
    let blend_mode = match opt_text(c, TextTag::BlendMode) {
        None => None,
        Some(s) => match BlendMode::from_name(&s) {
            Ok(b) => Some(b),
            Err(e) => {
                return Err(e);
            },
        },
    };
    Ok(
        RenderState {
            name: opt_text(c, TextTag::Name),
            enabled: flag(opt_int(c, IntTag::Enabled)),
            blend_enabled: flag(opt_int(c, IntTag::BlendEnabled)),
            blend_mode,
            decal_blend_diffuse: opt_int(c, IntTag::DecalBlendDiffuse),
            decal_blend_normal: opt_int(c, IntTag::DecalBlendNormal),
            decal_blend_specular: opt_int(c, IntTag::DecalBlendSpecular),
            decal_blend_roughness: opt_int(c, IntTag::DecalBlendRoughness),
            decal_blend_emission: opt_int(c, IntTag::DecalBlendEmission),
            alpha_test_enabled: flag(opt_int(c, IntTag::AlphaTestEnabled)),
            alpha_reference: opt_int(c, IntTag::AlphaReference),
            fog_enabled: flag(opt_int(c, IntTag::FogEnabled)),
            opacity: opt_float(c, FloatTag::Opacity),
            culling_mode,
            z_bias: opt_int(c, IntTag::ZBias),
            z_offset: opt_float(c, FloatTag::ZOffset),
            subsurface_red: opt_float(c, FloatTag::SubsurfaceRed),
            subsurface_green: opt_float(c, FloatTag::SubsurfaceGreen),
            subsurface_blue: opt_float(c, FloatTag::SubsurfaceBlue),
            subsurface_value: opt_float(c, FloatTag::SubsurfaceValue),
        },
    )
}

/// The enabled flag of a property node, which must be there.
fn req_enabled(x: &Vec<IntermediateMaterialProperty>) -> (r: Result<u32, MaterialError>)
    ensures
        r matches Ok(v) ==> spec_find(spec_views(x@), Wanted::Int(IntTag::Enabled)) == Some(NodeView::Int(IntTag::Enabled, v)),
        r matches Err(e) ==> !(spec_find(spec_views(x@), Wanted::Int(IntTag::Enabled)) is Some)
            && e@ == spec_missing(IntTag::Enabled.spec_code()),
{
    proof {
        lemma_spec_views(x@);
    }
    match find_child(x, Wanted::Int(IntTag::Enabled)) {
        Some(i) => match &x[i] {
            IntermediateMaterialProperty::Int(_, v) => Ok(*v),
            _ => Err(MaterialError::RequiredPropertyNotFound(IntTag::Enabled.code())),
        },
        None => Err(MaterialError::RequiredPropertyNotFound(IntTag::Enabled.code())),
    }
}

/// The value of the first `VALU` child of a property node, if any.
fn opt_value(x: &Vec<IntermediateMaterialProperty>) -> (r: Option<FloatVal>)
    ensures
        r matches Some(FloatVal::Single(v)) ==> spec_find(spec_views(x@), Wanted::Value) == Some(NodeView::Single(v)),
        r matches Some(FloatVal::Vector(v)) ==> spec_find(spec_views(x@), Wanted::Value) == Some(NodeView::Vector(v@)),
        r is None ==> spec_find(spec_views(x@), Wanted::Value) is None,
{
    proof {
        lemma_spec_views(x@);
    }
    match find_child(x, Wanted::Value) {
        Some(i) => match &x[i] {
            IntermediateMaterialProperty::Value(FloatVal::Single(v)) => Some(FloatVal::Single(*v)),
            IntermediateMaterialProperty::Value(FloatVal::Vector(v)) => Some(FloatVal::Vector(copy_floats(v))),
            _ => None,
        },
        None => None,
    }
}

/// Reads a colour property with `arity` channels from the children of its node.
fn parse_colour_property(x: &Vec<IntermediateMaterialProperty>, arity: usize) -> (r: Result<
    (String, MaterialPropertyValue),
    MaterialError,
>)
    ensures
        r matches Ok((k, v)) ==> spec_parse_colour_property(spec_views(x@), arity as nat) == Ok::<
            (Seq<char>, PropertyView),
            MaterialErrorView,
        >((k@, v@)),
        r matches Err(e) ==> spec_parse_colour_property(spec_views(x@), arity as nat) == Err::<
            (Seq<char>, PropertyView),
            MaterialErrorView,
        >(e@),
{
    let name = match req_text(x, TextTag::Name) {
        Ok(n) => n,
        Err(e) => {
            return Err(e);
        },
    };
    let enabled = match req_enabled(x) {
        Ok(v) => v,
        Err(e) => {
            return Err(e);
        },
    };
    match opt_value(x) {
        Some(FloatVal::Vector(v)) => {
            if v.len() == arity {
                Ok((name, MaterialPropertyValue::Colour { enabled: enabled != 0, value: colour_string(&v) }))
            } else {
                Err(MaterialError::InvalidColor(name))
            }
        },
        Some(FloatVal::Single(_)) => Err(MaterialError::InvalidColor(name)),
        None => Err(MaterialError::RequiredPropertyNotFound(TAG_VALU)),
    }
}

/// Reads the name and value of the property that a child of a binder node
/// holds.
fn parse_property(n: &IntermediateMaterialProperty) -> (r: Result<(String, MaterialPropertyValue), MaterialError>)
    ensures
        r matches Ok((k, v)) ==> spec_parse_property(n@) == Ok::<(Seq<char>, PropertyView), MaterialErrorView>((k@, v@)),
        r matches Err(e) ==> spec_parse_property(n@) == Err::<(Seq<char>, PropertyView), MaterialErrorView>(e@),
{
    match n {
        IntermediateMaterialProperty::Nested(NestedTag::FloatValue, x) => {
            let name = match req_text(x, TextTag::Name) {
                Ok(n) => n,
                Err(e) => {
                    return Err(e);
                },
            };
            let enabled = match req_enabled(x) {
                Ok(v) => v,
                Err(e) => {
                    return Err(e);
                },
            };
            match opt_value(x) {
                Some(FloatVal::Single(v)) => Ok((name, MaterialPropertyValue::Float { enabled: enabled != 0, value: v })),
                Some(FloatVal::Vector(v)) => Ok((name, MaterialPropertyValue::Vector { enabled: enabled != 0, value: v })),
                None => Err(MaterialError::RequiredPropertyNotFound(TAG_VALU)),
            }
        },
        IntermediateMaterialProperty::Nested(NestedTag::Texture, x) => {
            proof {
                lemma_spec_views(x@);
            }
            let name = match req_text(x, TextTag::Name) {
                Ok(n) => n,
                Err(e) => {
                    return Err(e);
                },
            };
            let enabled = match req_enabled(x) {
                Ok(v) => v,
                Err(e) => {
                    return Err(e);
                },
            };
            let tiling_u = match req_text(x, TextTag::TilingU) {
                Ok(n) => n,
                Err(e) => {
                    return Err(e);
                },
            };
            let tiling_v = match req_text(x, TextTag::TilingV) {
                Ok(n) => n,
                Err(e) => {
                    return Err(e);
                },
            };
            let value: Option<RuntimeID> = match find_child(x, Wanted::TextureId) {
                Some(i) => match &x[i] {
                    IntermediateMaterialProperty::TextureID(v) => *v,
                    _ => {
                        return Err(MaterialError::RequiredPropertyNotFound(TAG_TXID));
                    },
                },
                None => {
                    return Err(MaterialError::RequiredPropertyNotFound(TAG_TXID));
                },
            };
            let texture_type = match req_text(x, TextTag::Type) {
                Ok(n) => n,
                Err(e) => {
                    return Err(e);
                },
            };
            Ok(
                (
                    name,
                    MaterialPropertyValue::Texture {
                        enabled: enabled != 0,
                        value,
                        tiling_u,
                        tiling_v,
                        texture_type,
                    },
                ),
            )
        },
        IntermediateMaterialProperty::Nested(NestedTag::Color, x) => parse_colour_property(x, 3),
        IntermediateMaterialProperty::Nested(NestedTag::Color4, x) => parse_colour_property(x, 4),
        _ => Err(MaterialError::PropertyAtWrongLevel(copy_node(n))),
    }
}

impl Clone for IntermediateMaterialProperty {
    fn clone(&self) -> Self {
        copy_node(self)
    }
}

/// A copy of a node.
fn copy_node(n: &IntermediateMaterialProperty) -> (r: IntermediateMaterialProperty)
    ensures
        r@ == n@,
    decreases n,
{
    match n {
        IntermediateMaterialProperty::Int(t, v) => IntermediateMaterialProperty::Int(*t, *v),
        IntermediateMaterialProperty::Float(t, v) => IntermediateMaterialProperty::Float(*t, *v),
        IntermediateMaterialProperty::Text(t, s) => IntermediateMaterialProperty::Text(*t, s.clone()),
        IntermediateMaterialProperty::TextureID(v) => IntermediateMaterialProperty::TextureID(*v),
        IntermediateMaterialProperty::Value(FloatVal::Single(v)) => IntermediateMaterialProperty::Value(FloatVal::Single(*v)),
        IntermediateMaterialProperty::Value(FloatVal::Vector(v)) => IntermediateMaterialProperty::Value(FloatVal::Vector(copy_floats(v))),
        IntermediateMaterialProperty::Nested(t, c) => {
            let mut out: Vec<IntermediateMaterialProperty> = Vec::new();
            let mut i: usize = 0;
            proof {
                lemma_spec_views(c@);
            }
            while i < c.len()
                invariant
                    i <= c@.len(),
                    *n == IntermediateMaterialProperty::Nested(*t, *c),
                    spec_views(out@) == spec_views(c@).take(i as int),
                    spec_views(c@).len() == c@.len(),
                    forall|j: int| 0 <= j < c@.len() ==> #[trigger] spec_views(c@)[j] == c@[j]@,
                decreases c@.len() - i,
            {
                proof {
                    assert(decreases_to!(*n => (*n)->Nested_1));
                    assert(decreases_to!(*c => c[i as int]));
                }
                let x = copy_node(&c[i]);
                let ghost before = out@;
                out.push(x);
                proof {
                    assert(out@.subrange(0, out@.len() - 1) =~= before);
                    assert(spec_views(out@) =~= spec_views(c@).take(i + 1));
                }
                i = i + 1;
            }
            assert(spec_views(c@).take(c@.len() as int) =~= spec_views(c@));
            IntermediateMaterialProperty::Nested(*t, out)
        },
    }
}

proof fn lemma_properties_error_stays(b: Seq<NodeView>, i: int, e: MaterialErrorView)
    requires
        0 <= i <= b.len(),
        spec_parse_properties(b.take(i)) == Err::<Seq<(Seq<char>, PropertyView)>, MaterialErrorView>(e),
    ensures
        spec_parse_properties(b) == Err::<Seq<(Seq<char>, PropertyView)>, MaterialErrorView>(e),
    decreases b.len() - i,
{
    if i < b.len() {
        assert(b.take(i + 1).subrange(0, i) =~= b.take(i));
        lemma_properties_error_stays(b, i + 1, e);
    } else {
        assert(b.take(i) =~= b);
    }
}

/// Reads the binder from the children of a binder node.
fn parse_binder(b: &Vec<IntermediateMaterialProperty>) -> (r: Result<Binder, MaterialError>)
    ensures
        r matches Ok(x) ==> spec_parse_binder(spec_views(b@)) == Ok::<BinderView, MaterialErrorView>(x@),
        r matches Err(e) ==> spec_parse_binder(spec_views(b@)) == Err::<BinderView, MaterialErrorView>(e@),
{
    let ghost mut rs_view: Seq<NodeView> = Seq::empty();
    let render_state = match opt_nested(b, NestedTag::RenderState) {
        Some(rs) => match parse_render_state(rs) {
            Ok(s) => {
                proof {
                    rs_view = spec_views(rs@);
                }
                s
            },
            Err(e) => {
                return Err(e);
            },
        },
        None => {
            return Err(MaterialError::RequiredPropertyNotFound(NestedTag::RenderState.code()));
        },
    };
    let ghost bv = spec_views(b@);
    proof {
        lemma_spec_views(b@);
    }
    let mut properties = new_property_map();
    assert(spec_entries_view(crate::model::property_entries(properties)) =~= Seq::empty());
    assert(bv.take(0) =~= Seq::<NodeView>::empty());
    let mut i: usize = 0;
    while i < b.len()
        invariant
            i <= b@.len(),
            bv == spec_views(b@),
            spec_find(bv, Wanted::Nested(NestedTag::RenderState)) == Some(NodeView::Nested(NestedTag::RenderState, rs_view)),
            spec_parse_render_state(rs_view) == Ok::<RenderStateView, MaterialErrorView>(render_state@),
            bv.len() == b@.len(),
            forall|j: int| 0 <= j < b@.len() ==> #[trigger] bv[j] == b@[j]@,
            spec_parse_properties(bv.take(i as int)) == Ok::<Seq<(Seq<char>, PropertyView)>, MaterialErrorView>(
                spec_entries_view(crate::model::property_entries(properties)),
            ),
        decreases b@.len() - i,
    {
        proof {
            assert(bv.take(i + 1).subrange(0, i as int) =~= bv.take(i as int));
        }
        if !wanted(Wanted::Nested(NestedTag::RenderState), &b[i]) {
            match parse_property(&b[i]) {
                Ok((k, v)) => {
                    insert_property(&mut properties, k, v);
                },
                Err(e) => {
                    proof {
                        lemma_properties_error_stays(bv, i + 1, e@);
                    }
                    return Err(e);
                },
            }
        }
        i = i + 1;
    }
    assert(bv.take(b@.len() as int) =~= bv);
    Ok(Binder { render_state, properties })
}

/// Reads the name, tags and binder of a material instance from its
/// instance node. A root that is not an instance node is an
/// `InstanceNotTopLevel` error; a missing name, tags, binder, render state or
/// culling mode, or a property without its name, flag or value, is a
/// `RequiredPropertyNotFound` error with the missing tag's code; a binder
/// child that is not a property is a `PropertyAtWrongLevel` error; a colour
/// whose value is not a vector of its channel count is an `InvalidColor`
/// error; and an unknown blend or culling mode is reported as such.
pub fn parse_instance(instance: IntermediateMaterialProperty) -> (r: Result<(String, String, Binder), MaterialError>)
    ensures
        r matches Ok((n, t, b)) ==> spec_parse_instance(instance@) == Ok::<
            (Seq<char>, Seq<char>, BinderView),
            MaterialErrorView,
        >((n@, t@, b@)),
        r matches Err(e) ==> spec_parse_instance(instance@) == Err::<
            (Seq<char>, Seq<char>, BinderView),
            MaterialErrorView,
        >(e@),
{
    match instance {
        IntermediateMaterialProperty::Nested(NestedTag::Instance, c) => {
            let name = match req_text(&c, TextTag::Name) {
                Ok(n) => n,
                Err(e) => {
                    return Err(e);
                },
            };
            let tags = match req_text(&c, TextTag::Tags) {
                Ok(n) => n,
                Err(e) => {
                    return Err(e);
                },
            };
            match opt_nested(&c, NestedTag::Binder) {
                Some(b) => match parse_binder(b) {
                    Ok(binder) => Ok((name, tags, binder)),
                    Err(e) => Err(e),
                },
                None => Err(MaterialError::RequiredPropertyNotFound(NestedTag::Binder.code())),
            }
        },
        _ => Err(MaterialError::InstanceNotTopLevel),
    }
}

/// The node for an optional field: none where the field is absent.
pub open spec fn spec_opt_node(o: Option<NodeView>) -> Seq<NodeView> {
    match o {
        Some(n) => seq![n],
        None => Seq::empty(),
    }
}

/// An integer node for a flag that may be there.
pub open spec fn spec_flag_node(t: IntTag, b: Option<bool>) -> Option<NodeView> {
    match b {
        Some(x) => Some(NodeView::Int(t, if x { 1 } else { 0 })),
        None => None,
    }
}

/// An integer node for a value that may be there.
pub open spec fn spec_int_node(t: IntTag, v: Option<u32>) -> Option<NodeView> {
    match v {
        Some(x) => Some(NodeView::Int(t, x)),
        None => None,
    }
}

/// A float node for a value that may be there.
pub open spec fn spec_float_node(t: FloatTag, v: Option<u32>) -> Option<NodeView> {
    match v {
        Some(x) => Some(NodeView::Float(t, x)),
        None => None,
    }
}

/// The children of the render-state node: the fields that are there, and
/// the culling mode, in the order of the format.
pub open spec fn spec_render_state_nodes(r: RenderStateView) -> Seq<NodeView> {
    Seq::empty()
        + spec_opt_node(spec_name_node(r.name))
        + spec_opt_node(spec_flag_node(IntTag::Enabled, r.enabled))
        + spec_opt_node(spec_flag_node(IntTag::BlendEnabled, r.blend_enabled))
        + spec_opt_node(spec_blend_node(r.blend_mode))
        + spec_opt_node(spec_int_node(IntTag::DecalBlendDiffuse, r.decal_blend_diffuse))
        + spec_opt_node(spec_int_node(IntTag::DecalBlendNormal, r.decal_blend_normal))
        + spec_opt_node(spec_int_node(IntTag::DecalBlendSpecular, r.decal_blend_specular))
        + spec_opt_node(spec_int_node(IntTag::DecalBlendRoughness, r.decal_blend_roughness))
        + spec_opt_node(spec_int_node(IntTag::DecalBlendEmission, r.decal_blend_emission))
        + spec_opt_node(spec_flag_node(IntTag::AlphaTestEnabled, r.alpha_test_enabled))
        + spec_opt_node(spec_int_node(IntTag::AlphaReference, r.alpha_reference))
        + spec_opt_node(spec_flag_node(IntTag::FogEnabled, r.fog_enabled))
        + spec_opt_node(spec_float_node(FloatTag::Opacity, r.opacity))
        + spec_opt_node(Some(NodeView::Text(TextTag::CullingMode, r.culling_mode.spec_name())))
        + spec_opt_node(spec_int_node(IntTag::ZBias, r.z_bias))
        + spec_opt_node(spec_float_node(FloatTag::ZOffset, r.z_offset))
        + spec_opt_node(spec_float_node(FloatTag::SubsurfaceRed, r.subsurface_red))
        + spec_opt_node(spec_float_node(FloatTag::SubsurfaceGreen, r.subsurface_green))
        + spec_opt_node(spec_float_node(FloatTag::SubsurfaceBlue, r.subsurface_blue))
        + spec_opt_node(spec_float_node(FloatTag::SubsurfaceValue, r.subsurface_value))
}

/// The `i`-th field node of a render state that may be absent, in the order
/// of the format.
pub open spec fn spec_rs_part(r: RenderStateView, i: int) -> Option<NodeView> {
    if i == 0 {
        spec_name_node(r.name)
    } else if i == 1 {
        spec_flag_node(IntTag::Enabled, r.enabled)
    } else if i == 2 {
        spec_flag_node(IntTag::BlendEnabled, r.blend_enabled)
    } else if i == 3 {
        spec_blend_node(r.blend_mode)
    } else if i == 4 {
        spec_int_node(IntTag::DecalBlendDiffuse, r.decal_blend_diffuse)
    } else if i == 5 {
        spec_int_node(IntTag::DecalBlendNormal, r.decal_blend_normal)
    } else if i == 6 {
        spec_int_node(IntTag::DecalBlendSpecular, r.decal_blend_specular)
    } else if i == 7 {
        spec_int_node(IntTag::DecalBlendRoughness, r.decal_blend_roughness)
    } else if i == 8 {
        spec_int_node(IntTag::DecalBlendEmission, r.decal_blend_emission)
    } else if i == 9 {
        spec_flag_node(IntTag::AlphaTestEnabled, r.alpha_test_enabled)
    } else if i == 10 {
        spec_int_node(IntTag::AlphaReference, r.alpha_reference)
    } else if i == 11 {
        spec_flag_node(IntTag::FogEnabled, r.fog_enabled)
    } else if i == 12 {
        spec_float_node(FloatTag::Opacity, r.opacity)
    } else if i == 13 {
        Some(NodeView::Text(TextTag::CullingMode, r.culling_mode.spec_name()))
    } else if i == 14 {
        spec_int_node(IntTag::ZBias, r.z_bias)
    } else if i == 15 {
        spec_float_node(FloatTag::ZOffset, r.z_offset)
    } else if i == 16 {
        spec_float_node(FloatTag::SubsurfaceRed, r.subsurface_red)
    } else if i == 17 {
        spec_float_node(FloatTag::SubsurfaceGreen, r.subsurface_green)
    } else if i == 18 {
        spec_float_node(FloatTag::SubsurfaceBlue, r.subsurface_blue)
    } else {
        spec_float_node(FloatTag::SubsurfaceValue, r.subsurface_value)
    }
}

/// What a lookup must look for to find the `i`-th field node.
pub open spec fn spec_rs_class(i: int) -> Wanted {
    if i == 0 {
        Wanted::Text(TextTag::Name)
    } else if i == 1 {
        Wanted::Int(IntTag::Enabled)
    } else if i == 2 {
        Wanted::Int(IntTag::BlendEnabled)
    } else if i == 3 {
        Wanted::Text(TextTag::BlendMode)
    } else if i == 4 {
        Wanted::Int(IntTag::DecalBlendDiffuse)
    } else if i == 5 {
        Wanted::Int(IntTag::DecalBlendNormal)
    } else if i == 6 {
        Wanted::Int(IntTag::DecalBlendSpecular)
    } else if i == 7 {
        Wanted::Int(IntTag::DecalBlendRoughness)
    } else if i == 8 {
        Wanted::Int(IntTag::DecalBlendEmission)
    } else if i == 9 {
        Wanted::Int(IntTag::AlphaTestEnabled)
    } else if i == 10 {
        Wanted::Int(IntTag::AlphaReference)
    } else if i == 11 {
        Wanted::Int(IntTag::FogEnabled)
    } else if i == 12 {
        Wanted::Float(FloatTag::Opacity)
    } else if i == 13 {
        Wanted::Text(TextTag::CullingMode)
    } else if i == 14 {
        Wanted::Int(IntTag::ZBias)
    } else if i == 15 {
        Wanted::Float(FloatTag::ZOffset)
    } else if i == 16 {
        Wanted::Float(FloatTag::SubsurfaceRed)
    } else if i == 17 {
        Wanted::Float(FloatTag::SubsurfaceGreen)
    } else if i == 18 {
        Wanted::Float(FloatTag::SubsurfaceBlue)
    } else {
        Wanted::Float(FloatTag::SubsurfaceValue)
    }
}

/// The first `k` field nodes of a render state that are there.
pub open spec fn spec_rs_prefix(r: RenderStateView, k: nat) -> Seq<NodeView>
    decreases k,
{
    if k == 0 {
        Seq::empty()
    } else {
        spec_rs_prefix(r, (k - 1) as nat) + spec_opt_node(spec_rs_part(r, k - 1))
    }
}

/// The node `o`, if it is there and `w` looks for it.
pub open spec fn spec_hit(o: Option<NodeView>, w: Wanted) -> Option<NodeView> {
    match o {
        Some(n) => if spec_wanted(w, n) {
            Some(n)
        } else {
            None
        },
        None => None,
    }
}

proof fn lemma_rs_nodes_prefix(r: RenderStateView)
    ensures
        spec_render_state_nodes(r) == spec_rs_prefix(r, 20),
{
    reveal_with_fuel(spec_rs_prefix, 21);
}

proof fn lemma_find_from_shift(a: Seq<NodeView>, b: Seq<NodeView>, w: Wanted, j: int)
    requires
        0 <= j <= b.len(),
    ensures
        spec_find_from(a + b, w, a.len() + j) == match spec_find_from(b, w, j) {
            Some(x) => Some(x + a.len()),
            None => None,
        },
    decreases b.len() - j,
{
    if j < b.len() {
        assert((a + b)[a.len() + j] == b[j]);
        lemma_find_from_shift(a, b, w, j + 1);
    }
}

proof fn lemma_find_from_concat(a: Seq<NodeView>, b: Seq<NodeView>, w: Wanted, i: int)
    requires
        0 <= i <= a.len(),
    ensures
        spec_find_from(a + b, w, i) == match spec_find_from(a, w, i) {
            Some(x) => Some(x),
            None => match spec_find_from(b, w, 0) {
                Some(x) => Some(x + a.len()),
                None => None,
            },
        },
    decreases a.len() - i,
{
    if i < a.len() {
        assert((a + b)[i] == a[i]);
        lemma_find_from_concat(a, b, w, i + 1);
    } else {
        lemma_find_from_shift(a, b, w, 0);
    }
}

proof fn lemma_find_from_bounds(a: Seq<NodeView>, w: Wanted, i: int)
    ensures
        spec_find_from(a, w, i) matches Some(x) ==> i <= x < a.len() && spec_wanted(w, a[x]),
    decreases a.len() - i,
{
    if 0 <= i < a.len() && !spec_wanted(w, a[i]) {
        lemma_find_from_bounds(a, w, i + 1);
    }
}

/// The first node of `a` followed by an optional node that `w` looks for.
proof fn lemma_find_append(a: Seq<NodeView>, o: Option<NodeView>, w: Wanted)
    ensures
        spec_find(a + spec_opt_node(o), w) == (if spec_find(a, w) is Some {
            spec_find(a, w)
        } else {
            spec_hit(o, w)
        }),
{
    let b = spec_opt_node(o);
    lemma_find_from_concat(a, b, w, 0);
    reveal_with_fuel(spec_find_from, 3);
    match spec_find_from(a, w, 0) {
        Some(x) => {
            lemma_find_from_bounds(a, w, 0);
            assert((a + b)[x] == a[x]);
        },
        None => {
            match spec_find_from(b, w, 0) {
                Some(x) => {
                    lemma_find_from_bounds(b, w, 0);
                    assert((a + b)[x + a.len()] == b[x]);
                },
                None => {},
            }
        },
    }
}

proof fn lemma_rs_part_class(r: RenderStateView, i: int, w: Wanted)
    requires
        0 <= i < 20,
        spec_hit(spec_rs_part(r, i), w) is Some,
    ensures
        w == spec_rs_class(i),
{
}

proof fn lemma_rs_find(r: RenderStateView, j: int, k: nat)
    requires
        0 <= j < 20,
        k <= 20,
    ensures
        spec_find(spec_rs_prefix(r, k), spec_rs_class(j)) == (if k > j {
            spec_hit(spec_rs_part(r, j), spec_rs_class(j))
        } else {
            None
        }),
    decreases k,
{
    if k > 0 {
        lemma_rs_find(r, j, (k - 1) as nat);
        lemma_find_append(spec_rs_prefix(r, (k - 1) as nat), spec_rs_part(r, k - 1), spec_rs_class(j));
        if k - 1 != j && spec_hit(spec_rs_part(r, k - 1), spec_rs_class(j)) is Some {
            lemma_rs_part_class(r, k - 1, spec_rs_class(j));
            assert(spec_rs_class(k - 1) != spec_rs_class(j));
        }
    } else {
        reveal_with_fuel(spec_find_from, 2);
    }
}

/// A render state written as nodes reads back as the same render state.
pub proof fn lemma_render_state_round_trip(r: RenderStateView)
    ensures
        spec_parse_render_state(spec_render_state_nodes(r)) == Ok::<RenderStateView, MaterialErrorView>(r),
{
    lemma_rs_nodes_prefix(r);
    let c = spec_render_state_nodes(r);
    assert(spec_opt_text(c, TextTag::Name) == r.name) by {
        lemma_rs_find(r, 0, 20);
    }
    assert(spec_flag(spec_opt_int(c, IntTag::Enabled)) == r.enabled) by {
        lemma_rs_find(r, 1, 20);
    }
    assert(spec_flag(spec_opt_int(c, IntTag::BlendEnabled)) == r.blend_enabled) by {
        lemma_rs_find(r, 2, 20);
    }
    assert(spec_opt_text(c, TextTag::BlendMode) == (match r.blend_mode { Some(m) => Some(m.spec_name()), None => None })) by {
        lemma_rs_find(r, 3, 20);
    }
    assert(spec_opt_int(c, IntTag::DecalBlendDiffuse) == r.decal_blend_diffuse) by {
        lemma_rs_find(r, 4, 20);
    }
    assert(spec_opt_int(c, IntTag::DecalBlendNormal) == r.decal_blend_normal) by {
        lemma_rs_find(r, 5, 20);
    }
    assert(spec_opt_int(c, IntTag::DecalBlendSpecular) == r.decal_blend_specular) by {
        lemma_rs_find(r, 6, 20);
    }
    assert(spec_opt_int(c, IntTag::DecalBlendRoughness) == r.decal_blend_roughness) by {
        lemma_rs_find(r, 7, 20);
    }
    assert(spec_opt_int(c, IntTag::DecalBlendEmission) == r.decal_blend_emission) by {
        lemma_rs_find(r, 8, 20);
    }
    assert(spec_flag(spec_opt_int(c, IntTag::AlphaTestEnabled)) == r.alpha_test_enabled) by {
        lemma_rs_find(r, 9, 20);
    }
    assert(spec_opt_int(c, IntTag::AlphaReference) == r.alpha_reference) by {
        lemma_rs_find(r, 10, 20);
    }
    assert(spec_flag(spec_opt_int(c, IntTag::FogEnabled)) == r.fog_enabled) by {
        lemma_rs_find(r, 11, 20);
    }
    assert(spec_opt_float(c, FloatTag::Opacity) == r.opacity) by {
        lemma_rs_find(r, 12, 20);
    }
    assert(spec_opt_text(c, TextTag::CullingMode) == Some(r.culling_mode.spec_name())) by {
        lemma_rs_find(r, 13, 20);
    }
    assert(spec_opt_int(c, IntTag::ZBias) == r.z_bias) by {
        lemma_rs_find(r, 14, 20);
    }
    assert(spec_opt_float(c, FloatTag::ZOffset) == r.z_offset) by {
        lemma_rs_find(r, 15, 20);
    }
    assert(spec_opt_float(c, FloatTag::SubsurfaceRed) == r.subsurface_red) by {
        lemma_rs_find(r, 16, 20);
    }
    assert(spec_opt_float(c, FloatTag::SubsurfaceGreen) == r.subsurface_green) by {
        lemma_rs_find(r, 17, 20);
    }
    assert(spec_opt_float(c, FloatTag::SubsurfaceBlue) == r.subsurface_blue) by {
        lemma_rs_find(r, 18, 20);
    }
    assert(spec_opt_float(c, FloatTag::SubsurfaceValue) == r.subsurface_value) by {
        lemma_rs_find(r, 19, 20);
    }
    crate::vocab::lemma_culling_mode_name_round_trip(r.culling_mode);
    match r.blend_mode {
        Some(m) => crate::vocab::lemma_blend_mode_name_round_trip(m),
        None => {},
    }
}

/// The node for a named property.
pub open spec fn spec_property_node(k: Seq<char>, v: PropertyView) -> Result<NodeView, MaterialErrorView> {
    match v {
        PropertyView::Float { enabled, value } => Ok(
            NodeView::Nested(
                NestedTag::FloatValue,
                seq![
                    NodeView::Text(TextTag::Name, k),
                    NodeView::Int(IntTag::Enabled, if enabled { 1 } else { 0 }),
                    NodeView::Single(value),
                ],
            ),
        ),
        PropertyView::Vector { enabled, value } => if 2 <= value.len() <= 4 {
            Ok(
                NodeView::Nested(
                    NestedTag::FloatValue,
                    seq![
                        NodeView::Text(TextTag::Name, k),
                        NodeView::Int(IntTag::Enabled, if enabled { 1 } else { 0 }),
                        NodeView::Vector(value),
                    ],
                ),
            )
        } else {
            Err(MaterialErrorView::Other(MaterialError::InvalidVector))
        },
        PropertyView::Texture { enabled, value, tiling_u, tiling_v, texture_type } => Ok(
            NodeView::Nested(
                NestedTag::Texture,
                seq![
                    NodeView::Text(TextTag::Name, k),
                    NodeView::Int(IntTag::Enabled, if enabled { 1 } else { 0 }),
                    NodeView::TextureID(value),
                    NodeView::Text(TextTag::TilingU, tiling_u),
                    NodeView::Text(TextTag::TilingV, tiling_v),
                    NodeView::Text(TextTag::Type, texture_type),
                ],
            ),
        ),
        PropertyView::Colour { enabled, value } => match spec_parse_colour(value) {
            None => Err(MaterialErrorView::Other(MaterialError::InvalidHex)),
            Some(bytes) => Ok(
                NodeView::Nested(
                    if bytes.len() == 4 { NestedTag::Color4 } else { NestedTag::Color },
                    seq![
                        NodeView::Text(TextTag::Name, k),
                        NodeView::Int(IntTag::Enabled, if enabled { 1 } else { 0 }),
                        NodeView::Vector(Seq::new(bytes.len(), |i: int| spec_channel_bits(bytes[i]))),
                    ],
                ),
            ),
        },
    }
}

/// A float vector property is encoded exactly when it has two, three or
/// four elements; otherwise it is refused as a vector of unsupported arity.
pub proof fn lemma_vector_arity(k: Seq<char>, enabled: bool, value: Seq<u32>)
    ensures
        spec_property_node(k, PropertyView::Vector { enabled, value }) is Ok <==> 2 <= value.len() <= 4,
        !(2 <= value.len() <= 4) ==> spec_property_node(k, PropertyView::Vector { enabled, value }) == Err::<
            NodeView,
            MaterialErrorView,
        >(MaterialErrorView::Other(MaterialError::InvalidVector)),
{
}

/// Whether a property value is read back as it was written: a float vector
/// has two, three or four elements, and a colour is `#` with three or four
/// pairs of lowercase hexadecimal digits.
pub open spec fn spec_property_wf(v: PropertyView) -> bool {
    match v {
        PropertyView::Vector { value, .. } => 2 <= value.len() <= 4,
        PropertyView::Colour { value, .. } => spec_parse_colour(value) matches Some(b) && spec_hex_string(b)
            == value,
        _ => true,
    }
}

/// A property that is read back as it was written becomes a node that
/// reads as the same name and value.
pub proof fn lemma_property_round_trip(k: Seq<char>, v: PropertyView)
    requires
        spec_property_wf(v),
    ensures
        spec_property_node(k, v) is Ok,
        spec_parse_property(spec_property_node(k, v)->Ok_0) == Ok::<(Seq<char>, PropertyView), MaterialErrorView>(
            (k, v),
        ),
{
    reveal_with_fuel(spec_find_from, 7);
    match v {
        PropertyView::Colour { enabled, value } => {
            let b = spec_parse_colour(value)->0;
            lemma_channels_round_trip(b);
            assert(b.len() == 3 || b.len() == 4);
        },
        _ => {},
    }
}

/// Whether a binder reads back as itself once encoded: every property does
/// (see `spec_property_wf`), and no two properties share a name (as in any
/// map).
pub open spec fn spec_binder_wf(b: BinderView) -> bool {
    &&& spec_keys_unique(b.properties)
    &&& forall|i: int| 0 <= i < b.properties.len() ==> #[trigger] spec_property_wf(b.properties[i].1)
}

proof fn lemma_properties_round_trip(e: Seq<(Seq<char>, PropertyView)>, rs: NodeView)
    requires
        spec_keys_unique(e),
        forall|i: int| 0 <= i < e.len() ==> #[trigger] spec_property_wf(e[i].1),
        spec_wanted(Wanted::Nested(NestedTag::RenderState), rs),
    ensures
        spec_property_nodes(e) is Ok,
        spec_parse_properties(seq![rs] + spec_property_nodes(e)->Ok_0) == Ok::<
            Seq<(Seq<char>, PropertyView)>,
            MaterialErrorView,
        >(e),
    decreases e.len(),
{
    if e.len() == 0 {
        let c = seq![rs] + Seq::<NodeView>::empty();
        assert(c.subrange(0, 0) =~= Seq::<NodeView>::empty());
        assert(spec_property_nodes(e) == Ok::<Seq<NodeView>, MaterialErrorView>(Seq::empty()));
        reveal_with_fuel(spec_parse_properties, 2);
        assert(e =~= Seq::<(Seq<char>, PropertyView)>::empty());
        assert(spec_parse_properties(c) == Ok::<Seq<(Seq<char>, PropertyView)>, MaterialErrorView>(e));
    } else {
        let p = e.subrange(0, e.len() - 1);
        let (k, v) = e[e.len() - 1];
        assert forall|i: int, j: int| 0 <= i < j < p.len() implies p[i].0 != p[j].0 by {
            assert(p[i] == e[i] && p[j] == e[j]);
        }
        assert forall|i: int| 0 <= i < p.len() implies #[trigger] spec_property_wf(p[i].1) by {
            assert(p[i] == e[i]);
        }
        lemma_properties_round_trip(p, rs);
        lemma_property_round_trip(k, v);
        let pn = spec_property_nodes(p)->Ok_0;
        let n = spec_property_node(k, v)->Ok_0;
        let c = seq![rs] + pn.push(n);
        assert(c.subrange(0, c.len() - 1) =~= seq![rs] + pn);
        assert(c[c.len() - 1] == n);
        assert(spec_property_nodes(e) == Ok::<Seq<NodeView>, MaterialErrorView>(pn.push(n)));
        assert(!spec_wanted(Wanted::Nested(NestedTag::RenderState), n));
        assert(spec_parse_property(n) == Ok::<(Seq<char>, PropertyView), MaterialErrorView>((k, v)));
        assert(!(exists|i: int| 0 <= i < p.len() && p[i].0 == k)) by {
            assert forall|i: int| 0 <= i < p.len() implies p[i].0 != k by {
                assert(p[i] == e[i]);
            }
        }
        assert(spec_insert(p, k, v) =~= e);
        assert(spec_parse_properties(seq![rs] + pn) == Ok::<Seq<(Seq<char>, PropertyView)>, MaterialErrorView>(p));
        assert(spec_parse_properties(c) == Ok::<Seq<(Seq<char>, PropertyView)>, MaterialErrorView>(e));
    }
}

/// A binder that reads back as itself is encoded, and its binder node reads
/// back as the same binder.
pub proof fn lemma_binder_round_trip(b: BinderView)
    requires
        spec_binder_wf(b),
    ensures
        spec_to_intermediate(b) is Ok,
        spec_to_intermediate(b)->Ok_0 matches NodeView::Nested(NestedTag::Binder, c) && spec_parse_binder(c)
            == Ok::<BinderView, MaterialErrorView>(b),
{
    let rs = NodeView::Nested(NestedTag::RenderState, spec_render_state_nodes(b.render_state));
    lemma_properties_round_trip(b.properties, rs);
    lemma_render_state_round_trip(b.render_state);
    let c = seq![rs] + spec_property_nodes(b.properties)->Ok_0;
    assert(c[0] == rs);
}

/// The nodes for a list of named properties, or the first error among them.
pub open spec fn spec_property_nodes(s: Seq<(Seq<char>, PropertyView)>) -> Result<Seq<NodeView>, MaterialErrorView>
    decreases s.len(),
{
    if s.len() == 0 {
        Ok(Seq::empty())
    } else {
        match spec_property_nodes(s.subrange(0, s.len() - 1)) {
            Err(e) => Err(e),
            Ok(p) => match spec_property_node(s[s.len() - 1].0, s[s.len() - 1].1) {
                Err(e) => Err(e),
                Ok(n) => Ok(p.push(n)),
            },
        }
    }
}

/// The binder node for a binder: its render state, then one node per
/// property, in order.
pub open spec fn spec_to_intermediate(b: BinderView) -> Result<NodeView, MaterialErrorView> {
    match spec_property_nodes(b.properties) {
        Err(e) => Err(e),
        Ok(p) => Ok(
            NodeView::Nested(
                NestedTag::Binder,
                seq![NodeView::Nested(NestedTag::RenderState, spec_render_state_nodes(b.render_state))] + p,
            ),
        ),
    }
}

/// Appends a node to a list.
fn push_node(out: &mut Vec<IntermediateMaterialProperty>, n: IntermediateMaterialProperty)
    ensures
        spec_views(final(out)@) == spec_views(old(out)@).push(n@),
{
    let ghost nv = n@;
    out.push(n);
    proof {
        assert(final(out)@.subrange(0, final(out)@.len() - 1) =~= old(out)@);
    }
}

/// The integer stored for a flag.
fn flag_value(b: bool) -> (r: u32)
    ensures
        r == (if b { 1u32 } else { 0u32 }),
{
    if b {
        1
    } else {
        0
    }
}

/// The view of a node that may be absent.
pub open spec fn spec_opt_view(o: Option<IntermediateMaterialProperty>) -> Option<NodeView> {
    match o {
        Some(n) => Some(n@),
        None => None,
    }
}

/// The name node of a render state, if it has a name.
pub open spec fn spec_name_node(n: Option<Seq<char>>) -> Option<NodeView> {
    match n {
        Some(s) => Some(NodeView::Text(TextTag::Name, s)),
        None => None,
    }
}

/// The blend-mode node of a render state, if it has a blend mode.
pub open spec fn spec_blend_node(m: Option<BlendMode>) -> Option<NodeView> {
    match m {
        Some(b) => Some(NodeView::Text(TextTag::BlendMode, b.spec_name())),
        None => None,
    }
}

fn name_node(n: &Option<String>) -> (r: Option<IntermediateMaterialProperty>)
    ensures
        spec_opt_view(r) == spec_name_node(
            match n {
                Some(s) => Some(s@),
                None => None,
            },
        ),
{
    match n {
        Some(s) => Some(IntermediateMaterialProperty::Text(TextTag::Name, s.clone())),
        None => None,
    }
}

fn blend_node(m: Option<BlendMode>) -> (r: Option<IntermediateMaterialProperty>)
    ensures
        spec_opt_view(r) == spec_blend_node(m),
{
    match m {
        Some(b) => Some(IntermediateMaterialProperty::Text(TextTag::BlendMode, b.to_name())),
        None => None,
    }
}

fn flag_node(t: IntTag, b: Option<bool>) -> (r: Option<IntermediateMaterialProperty>)
    ensures
        spec_opt_view(r) == spec_flag_node(t, b),
{
    match b {
        Some(x) => Some(IntermediateMaterialProperty::Int(t, flag_value(x))),
        None => None,
    }
}

fn int_node(t: IntTag, v: Option<u32>) -> (r: Option<IntermediateMaterialProperty>)
    ensures
        spec_opt_view(r) == spec_int_node(t, v),
{
    match v {
        Some(x) => Some(IntermediateMaterialProperty::Int(t, x)),
        None => None,
    }
}

fn float_node(t: FloatTag, v: Option<u32>) -> (r: Option<IntermediateMaterialProperty>)
    ensures
        spec_opt_view(r) == spec_float_node(t, v),
{
    match v {
        Some(x) => Some(IntermediateMaterialProperty::Float(t, x)),
        None => None,
    }
}

fn culling_node(m: CullingMode) -> (r: Option<IntermediateMaterialProperty>)
    ensures
        spec_opt_view(r) == Some(NodeView::Text(TextTag::CullingMode, m.spec_name())),
{
    Some(IntermediateMaterialProperty::Text(TextTag::CullingMode, m.to_name()))
}

/// Appends a node that may be absent.
fn push_opt_node(out: &mut Vec<IntermediateMaterialProperty>, o: Option<IntermediateMaterialProperty>)
    ensures
        spec_views(final(out)@) == spec_views(old(out)@) + spec_opt_node(spec_opt_view(o)),
{
    match o {
        Some(n) => {
            push_node(out, n);
            assert(spec_views(final(out)@) =~= spec_views(old(out)@) + seq![n@]);
        },
        None => {
            assert(spec_views(final(out)@) =~= spec_views(old(out)@) + Seq::<NodeView>::empty());
        },
    }
}

/// The children of the render-state node.
fn render_state_nodes(r: &RenderState) -> (out: Vec<IntermediateMaterialProperty>)
    ensures
        spec_views(out@) == spec_render_state_nodes(r@),
{
    let ghost rv = r@;
    let mut out: Vec<IntermediateMaterialProperty> = Vec::new();
    assert(spec_views(out@) =~= Seq::<NodeView>::empty());
    push_opt_node(&mut out, name_node(&r.name));
    push_opt_node(&mut out, flag_node(IntTag::Enabled, r.enabled));
    push_opt_node(&mut out, flag_node(IntTag::BlendEnabled, r.blend_enabled));
    push_opt_node(&mut out, blend_node(r.blend_mode));
    push_opt_node(&mut out, int_node(IntTag::DecalBlendDiffuse, r.decal_blend_diffuse));
    push_opt_node(&mut out, int_node(IntTag::DecalBlendNormal, r.decal_blend_normal));
    push_opt_node(&mut out, int_node(IntTag::DecalBlendSpecular, r.decal_blend_specular));
    push_opt_node(&mut out, int_node(IntTag::DecalBlendRoughness, r.decal_blend_roughness));
    push_opt_node(&mut out, int_node(IntTag::DecalBlendEmission, r.decal_blend_emission));
    push_opt_node(&mut out, flag_node(IntTag::AlphaTestEnabled, r.alpha_test_enabled));
    push_opt_node(&mut out, int_node(IntTag::AlphaReference, r.alpha_reference));
    push_opt_node(&mut out, flag_node(IntTag::FogEnabled, r.fog_enabled));
    push_opt_node(&mut out, float_node(FloatTag::Opacity, r.opacity));
    push_opt_node(&mut out, culling_node(r.culling_mode));
    push_opt_node(&mut out, int_node(IntTag::ZBias, r.z_bias));
    push_opt_node(&mut out, float_node(FloatTag::ZOffset, r.z_offset));
    push_opt_node(&mut out, float_node(FloatTag::SubsurfaceRed, r.subsurface_red));
    push_opt_node(&mut out, float_node(FloatTag::SubsurfaceGreen, r.subsurface_green));
    push_opt_node(&mut out, float_node(FloatTag::SubsurfaceBlue, r.subsurface_blue));
    push_opt_node(&mut out, float_node(FloatTag::SubsurfaceValue, r.subsurface_value));
    out
}

/// The channel floats for channel bytes.
pub(crate) fn channels_to_floats(bytes: &Vec<u8>) -> (r: Vec<u32>)
    ensures
        r@ == Seq::new(bytes@.len(), |i: int| spec_channel_bits(bytes@[i])),
{
    let mut r: Vec<u32> = Vec::new();
    let mut i: usize = 0;
    while i < bytes.len()
        invariant
            i <= bytes@.len(),
            r@ == Seq::new(i as nat, |j: int| spec_channel_bits(bytes@[j])),
        decreases bytes@.len() - i,
    {
        r.push(channel_to_bits(bytes[i]));
        i = i + 1;
        assert(r@ =~= Seq::new(i as nat, |j: int| spec_channel_bits(bytes@[j])));
    }
    r
}

/// The node for a named property.
fn property_node(k: &String, v: &MaterialPropertyValue) -> (r: Result<IntermediateMaterialProperty, MaterialError>)
    ensures
        r matches Ok(n) ==> spec_property_node(k@, v@) == Ok::<NodeView, MaterialErrorView>(n@),
        r matches Err(e) ==> spec_property_node(k@, v@) == Err::<NodeView, MaterialErrorView>(e@),
{
    let mut c: Vec<IntermediateMaterialProperty> = Vec::new();
    push_node(&mut c, IntermediateMaterialProperty::Text(TextTag::Name, k.clone()));
    match v {
        MaterialPropertyValue::Float { enabled, value } => {
            push_node(&mut c, IntermediateMaterialProperty::Int(IntTag::Enabled, flag_value(*enabled)));
            push_node(&mut c, IntermediateMaterialProperty::Value(FloatVal::Single(*value)));
            assert(spec_views(c@) =~= seq![
                NodeView::Text(TextTag::Name, k@),
                NodeView::Int(IntTag::Enabled, if *enabled { 1 } else { 0 }),
                NodeView::Single(*value),
            ]);
            Ok(IntermediateMaterialProperty::Nested(NestedTag::FloatValue, c))
        },
        MaterialPropertyValue::Vector { enabled, value } => {
            if value.len() < 2 || value.len() > 4 {
                return Err(MaterialError::InvalidVector);
            }
            push_node(&mut c, IntermediateMaterialProperty::Int(IntTag::Enabled, flag_value(*enabled)));
            push_node(&mut c, IntermediateMaterialProperty::Value(FloatVal::Vector(copy_floats(value))));
            assert(spec_views(c@) =~= seq![
                NodeView::Text(TextTag::Name, k@),
                NodeView::Int(IntTag::Enabled, if *enabled { 1 } else { 0 }),
                NodeView::Vector(value@),
            ]);
            Ok(IntermediateMaterialProperty::Nested(NestedTag::FloatValue, c))
        },
        MaterialPropertyValue::Texture { enabled, value, tiling_u, tiling_v, texture_type } => {
            push_node(&mut c, IntermediateMaterialProperty::Int(IntTag::Enabled, flag_value(*enabled)));
            push_node(&mut c, IntermediateMaterialProperty::TextureID(*value));
            push_node(&mut c, IntermediateMaterialProperty::Text(TextTag::TilingU, tiling_u.clone()));
            push_node(&mut c, IntermediateMaterialProperty::Text(TextTag::TilingV, tiling_v.clone()));
            push_node(&mut c, IntermediateMaterialProperty::Text(TextTag::Type, texture_type.clone()));
            assert(spec_views(c@) =~= seq![
                NodeView::Text(TextTag::Name, k@),
                NodeView::Int(IntTag::Enabled, if *enabled { 1 } else { 0 }),
                NodeView::TextureID(*value),
                NodeView::Text(TextTag::TilingU, tiling_u@),
                NodeView::Text(TextTag::TilingV, tiling_v@),
                NodeView::Text(TextTag::Type, texture_type@),
            ]);
            Ok(IntermediateMaterialProperty::Nested(NestedTag::Texture, c))
        },
        MaterialPropertyValue::Colour { enabled, value } => {
            match parse_colour(value) {
                None => Err(MaterialError::InvalidHex),
                Some(bytes) => {
                    let floats = channels_to_floats(&bytes);
                    let four = bytes.len() == 4;
                    push_node(&mut c, IntermediateMaterialProperty::Int(IntTag::Enabled, flag_value(*enabled)));
                    push_node(&mut c, IntermediateMaterialProperty::Value(FloatVal::Vector(floats)));
                    assert(spec_views(c@) =~= seq![
                        NodeView::Text(TextTag::Name, k@),
                        NodeView::Int(IntTag::Enabled, if *enabled { 1 } else { 0 }),
                        NodeView::Vector(Seq::new(bytes@.len(), |i: int| spec_channel_bits(bytes@[i]))),
                    ]);
                    if four {
                        Ok(IntermediateMaterialProperty::Nested(NestedTag::Color4, c))
                    } else {
                        Ok(IntermediateMaterialProperty::Nested(NestedTag::Color, c))
                    }
                },
            }
        },
    }
}

pub proof fn lemma_property_nodes_error_stays(s: Seq<(Seq<char>, PropertyView)>, i: int, e: MaterialErrorView)
    requires
        0 <= i <= s.len(),
        spec_property_nodes(s.take(i)) == Err::<Seq<NodeView>, MaterialErrorView>(e),
    ensures
        spec_property_nodes(s) == Err::<Seq<NodeView>, MaterialErrorView>(e),
    decreases s.len() - i,
{
    if i < s.len() {
        assert(s.take(i + 1).subrange(0, i) =~= s.take(i));
        lemma_property_nodes_error_stays(s, i + 1, e);
    } else {
        assert(s.take(i) =~= s);
    }
}

/// Builds the binder node for a binder: a render-state node that holds the
/// fields that are there and the culling mode, in the order of the format,
/// then one node per property, in order. A float vector of other than two,
/// three or four elements is an `InvalidVector` error, and a colour that is
/// not `#` with three or four pairs of hexadecimal digits an `InvalidHex`
/// error.
pub fn to_intermediate(binder: Binder) -> (r: Result<IntermediateMaterialProperty, MaterialError>)
    ensures
        r matches Ok(n) ==> spec_to_intermediate(binder@) == Ok::<NodeView, MaterialErrorView>(n@),
        r matches Err(e) ==> spec_to_intermediate(binder@) == Err::<NodeView, MaterialErrorView>(e@),
{
    let ghost bv = binder@;
    let rs = render_state_nodes(&binder.render_state);
    let mut children: Vec<IntermediateMaterialProperty> = Vec::new();
    push_node(&mut children, IntermediateMaterialProperty::Nested(NestedTag::RenderState, rs));
    let entries = crate::model::into_property_entries(binder.properties);
    let ghost ev = spec_entries_view(entries@);
    let ghost first = spec_views(children@);
    let mut i: usize = 0;
    assert(ev.take(0) =~= Seq::<(Seq<char>, PropertyView)>::empty());
    while i < entries.len()
        invariant
            i <= entries@.len(),
            ev == spec_entries_view(entries@),
            ev == bv.properties,
            bv == binder@,
            first == seq![NodeView::Nested(NestedTag::RenderState, spec_render_state_nodes(bv.render_state))],
            spec_property_nodes(ev.take(i as int)) matches Ok(p) && spec_views(children@) == first + p,
        decreases entries@.len() - i,
    {
        proof {
            assert(ev.take(i + 1).subrange(0, i as int) =~= ev.take(i as int));
        }
        let (k, v) = &entries[i];
        match property_node(k, v) {
            Ok(n) => {
                push_node(&mut children, n);
                proof {
                    let p = spec_property_nodes(ev.take(i as int))->Ok_0;
                    assert(spec_views(children@) =~= first + p.push(n@));
                }
            },
            Err(e) => {
                proof {
                    assert(ev.take(i + 1)[i as int] == ev[i as int]);
                    assert(ev[i as int] == (k@, v@));
                    assert(spec_property_nodes(ev.take(i + 1)) == Err::<Seq<NodeView>, MaterialErrorView>(e@));
                    lemma_property_nodes_error_stays(ev, i + 1, e@);
                }
                return Err(e);
            },
        }
        i = i + 1;
    }
    assert(ev.take(entries@.len() as int) =~= ev);
    Ok(IntermediateMaterialProperty::Nested(NestedTag::Binder, children))
}

} // verus!
