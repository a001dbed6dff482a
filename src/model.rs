//! The structured material instance: render state, named property bindings,
//! and the instance that holds them.

use vstd::prelude::*;
use indexmap::IndexMap;
use std::hash::RandomState;
use crate::flags::{ClassFlags, InstanceFlags};
use crate::refs::RuntimeID;
use crate::vocab::{BlendMode, CullingMode, MaterialType};

verus! {

/// The value bound to a named material property. Floats are kept as their
/// IEEE-754 single-precision bit patterns.
#[derive(Clone, Debug, PartialEq)]
pub enum MaterialPropertyValue {
    Float { enabled: bool, value: u32 },
    /// Two, three or four floats.
    Vector { enabled: bool, value: Vec<u32> },
    Texture {
        enabled: bool,
        value: Option<RuntimeID>,
        tiling_u: String,
        tiling_v: String,
        texture_type: String,
    },
    /// `#rrggbb` or `#rrggbbaa`.
    Colour { enabled: bool, value: String },
}

/// The mathematical value of a `MaterialPropertyValue`.
pub enum PropertyView {
    Float { enabled: bool, value: u32 },
    Vector { enabled: bool, value: Seq<u32> },
    Texture {
        enabled: bool,
        value: Option<RuntimeID>,
        tiling_u: Seq<char>,
        tiling_v: Seq<char>,
        texture_type: Seq<char>,
    },
    Colour { enabled: bool, value: Seq<char> },
}

impl View for MaterialPropertyValue {
    type V = PropertyView;

    open spec fn view(&self) -> PropertyView {
        match self {
            MaterialPropertyValue::Float { enabled, value } => PropertyView::Float {
                enabled: *enabled,
                value: *value,
            },
            MaterialPropertyValue::Vector { enabled, value } => PropertyView::Vector {
                enabled: *enabled,
                value: value@,
            },
            MaterialPropertyValue::Texture { enabled, value, tiling_u, tiling_v, texture_type } => {
                PropertyView::Texture {
                    enabled: *enabled,
                    value: *value,
                    tiling_u: tiling_u@,
                    tiling_v: tiling_v@,
                    texture_type: texture_type@,
                }
            },
            MaterialPropertyValue::Colour { enabled, value } => PropertyView::Colour {
                enabled: *enabled,
                value: value@,
            },
        }
    }
}

/// The rasterizer, blend, fog, decal and subsurface parameters of a
/// material. Every field but the culling mode is optional. Floats are kept as
/// their bit patterns.
#[derive(Clone, Debug, PartialEq)]
pub struct RenderState {
    pub name: Option<String>,
    pub enabled: Option<bool>,
    pub blend_enabled: Option<bool>,
    pub blend_mode: Option<BlendMode>,
    pub decal_blend_diffuse: Option<u32>,
    pub decal_blend_normal: Option<u32>,
    pub decal_blend_specular: Option<u32>,
    pub decal_blend_roughness: Option<u32>,
    pub decal_blend_emission: Option<u32>,
    pub alpha_test_enabled: Option<bool>,
    pub alpha_reference: Option<u32>,
    pub fog_enabled: Option<bool>,
    pub opacity: Option<u32>,
    pub culling_mode: CullingMode,
    pub z_bias: Option<u32>,
    pub z_offset: Option<u32>,
    pub subsurface_red: Option<u32>,
    pub subsurface_green: Option<u32>,
    pub subsurface_blue: Option<u32>,
    pub subsurface_value: Option<u32>,
}

/// Whether a render state's name is the one it has by default (or none).
pub fn is_default_renderstate(value: &Option<String>) -> (r: bool)
    ensures
        r == (value matches Some(n) ==> n@ == "RenderState"@),
{
    match value {
        Some(n) => {
            let d = "RenderState".to_owned();
            *n == d
        },
        None => true,
    }
}

/// The name that a render state has by default.
pub fn default_renderstate() -> (r: Option<String>)
    ensures
        r matches Some(n) && n@ == "RenderState"@,
{
    Some("RenderState".to_owned())
}

/// The mathematical value of a `RenderState`.
pub struct RenderStateView {
    pub name: Option<Seq<char>>,
    pub enabled: Option<bool>,
    pub blend_enabled: Option<bool>,
    pub blend_mode: Option<BlendMode>,
    pub decal_blend_diffuse: Option<u32>,
    pub decal_blend_normal: Option<u32>,
    pub decal_blend_specular: Option<u32>,
    pub decal_blend_roughness: Option<u32>,
    pub decal_blend_emission: Option<u32>,
    pub alpha_test_enabled: Option<bool>,
    pub alpha_reference: Option<u32>,
    pub fog_enabled: Option<bool>,
    pub opacity: Option<u32>,
    pub culling_mode: CullingMode,
    pub z_bias: Option<u32>,
    pub z_offset: Option<u32>,
    pub subsurface_red: Option<u32>,
    pub subsurface_green: Option<u32>,
    pub subsurface_blue: Option<u32>,
    pub subsurface_value: Option<u32>,
}

impl View for RenderState {
    type V = RenderStateView;

    open spec fn view(&self) -> RenderStateView {
        RenderStateView {
            name: match self.name {
                Some(n) => Some(n@),
                None => None,
            },
            enabled: self.enabled,
            blend_enabled: self.blend_enabled,
            blend_mode: self.blend_mode,
            decal_blend_diffuse: self.decal_blend_diffuse,
            decal_blend_normal: self.decal_blend_normal,
            decal_blend_specular: self.decal_blend_specular,
            decal_blend_roughness: self.decal_blend_roughness,
            decal_blend_emission: self.decal_blend_emission,
            alpha_test_enabled: self.alpha_test_enabled,
            alpha_reference: self.alpha_reference,
            fog_enabled: self.fog_enabled,
            opacity: self.opacity,
            culling_mode: self.culling_mode,
            z_bias: self.z_bias,
            z_offset: self.z_offset,
            subsurface_red: self.subsurface_red,
            subsurface_green: self.subsurface_green,
            subsurface_blue: self.subsurface_blue,
            subsurface_value: self.subsurface_value,
        }
    }
}

#[verifier::external_type_specification]
#[verifier::external_body]
#[verifier::reject_recursive_types(K)]
#[verifier::reject_recursive_types(V)]
#[verifier::reject_recursive_types(S)]
pub struct ExIndexMap<K, V, S>(IndexMap<K, V, S>);

/// Relies on `IndexMap`'s `Clone`, which clones the entries; nothing is
/// stated of the copy.
pub assume_specification<K, V, S>[ <IndexMap<K, V, S> as Clone>::clone ](m: &IndexMap<K, V, S>) -> IndexMap<K, V, S>
    where
        K: Clone,
        V: Clone,
        S: Clone,
;

/// The entries of a property map, in their order.
pub uninterp spec fn property_entries(m: IndexMap<String, MaterialPropertyValue, RandomState>) -> Seq<
    (String, MaterialPropertyValue),
>;

/// The entries with their keys and values as views.
pub open spec fn spec_entries_view(s: Seq<(String, MaterialPropertyValue)>) -> Seq<
    (Seq<char>, PropertyView),
> {
    Seq::new(s.len(), |i: int| (s[i].0@, s[i].1@))
}

/// Whether no two entries have the same key.
pub open spec fn spec_keys_unique(s: Seq<(Seq<char>, PropertyView)>) -> bool {
    forall|i: int, j: int| 0 <= i < j < s.len() ==> s[i].0 != s[j].0
}

/// The entries after inserting `(k, v)`: an entry with key `k` keeps its
/// place and takes the value `v`; otherwise the pair goes last.
pub open spec fn spec_insert(s: Seq<(Seq<char>, PropertyView)>, k: Seq<char>, v: PropertyView) -> Seq<
    (Seq<char>, PropertyView),
> {
    if exists|i: int| 0 <= i < s.len() && s[i].0 == k {
        let i = choose|i: int| 0 <= i < s.len() && s[i].0 == k;
        s.update(i, (k, v))
    } else {
        s.push((k, v))
    }
}

/// Relies on `IndexMap::new`: a new map is empty.
#[verifier::external_body]
pub(crate) fn new_property_map() -> (m: IndexMap<String, MaterialPropertyValue, RandomState>)
    ensures
        property_entries(m) == Seq::<(String, MaterialPropertyValue)>::empty(),
{
    IndexMap::new()
}

/// Relies on `IndexMap::insert`: where an equal key is present it keeps its
/// place and takes the new value, otherwise the pair is appended.
#[verifier::external_body]
pub(crate) fn insert_property(
    m: &mut IndexMap<String, MaterialPropertyValue, RandomState>,
    k: String,
    v: MaterialPropertyValue,
)
    ensures
        spec_entries_view(property_entries(*final(m))) == spec_insert(
            spec_entries_view(property_entries(*old(m))),
            k@,
            v@,
        ),
{
    m.insert(k, v);
}

/// Relies on `IndexMap`'s by-value iterator: it hands out the entries in
/// their order, and the keys of a map are unique.
#[verifier::external_body]
pub(crate) fn into_property_entries(m: IndexMap<String, MaterialPropertyValue, RandomState>) -> (r: Vec<
    (String, MaterialPropertyValue),
>)
    ensures
        r@ == property_entries(m),
        spec_keys_unique(spec_entries_view(r@)),
{
    m.into_iter().collect()
}

/// The render state and the named property bindings of a material.
#[derive(Clone, Debug, PartialEq)]
pub struct Binder {
    pub render_state: RenderState,
    pub properties: IndexMap<String, MaterialPropertyValue>,
}

/// The mathematical value of a `Binder`.
pub struct BinderView {
    pub render_state: RenderStateView,
    pub properties: Seq<(Seq<char>, PropertyView)>,
}

impl View for Binder {
    type V = BinderView;

    open spec fn view(&self) -> BinderView {
        BinderView {
            render_state: self.render_state@,
            properties: spec_entries_view(property_entries(self.properties)),
        }
    }
}

/// A material instance (MATI).
#[derive(Clone, Debug, PartialEq)]
pub struct MaterialInstance {
    pub id: RuntimeID,
    pub name: String,
    pub material_type: MaterialType,
    pub tags: String,
    pub class: Option<RuntimeID>,
    pub descriptor: Option<RuntimeID>,
    pub class_flags: ClassFlags,
    pub instance_flags: InstanceFlags,
    pub binder: Binder,
}

/// The mathematical value of a `MaterialInstance`.
pub struct MaterialInstanceView {
    pub id: RuntimeID,
    pub name: Seq<char>,
    pub material_type: MaterialType,
    pub tags: Seq<char>,
    pub class: Option<RuntimeID>,
    pub descriptor: Option<RuntimeID>,
    pub class_flags: ClassFlags,
    pub instance_flags: InstanceFlags,
    pub binder: BinderView,
}

impl View for MaterialInstance {
    type V = MaterialInstanceView;

    open spec fn view(&self) -> MaterialInstanceView {
        MaterialInstanceView {
            id: self.id,
            name: self.name@,
            material_type: self.material_type,
            tags: self.tags@,
            class: self.class,
            descriptor: self.descriptor,
            class_flags: self.class_flags,
            instance_flags: self.instance_flags,
            binder: self.binder@,
        }
    }
}

} // verus!
