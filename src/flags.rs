//! The class and instance flag bitsets of a material instance.

use vstd::prelude::*;

verus! {

/// The class flags of a material: which features its shader class uses.
#[derive(Clone, Copy, Debug, PartialEq, Eq, Hash, Structural)]
pub struct ClassFlags {
    /// Bit 0 (`0x1`).
    pub reflection_2d: bool,
    /// Bit 1 (`0x2`).
    pub refraction_2d: bool,
    /// Bit 2 (`0x4`).
    pub lighting: bool,
    /// Bit 3 (`0x8`).
    pub emissive: bool,
    /// Bit 4 (`0x10`).
    pub discard: bool,
    /// Bit 5 (`0x20`).
    pub lm_skin: bool,
    /// Bit 6 (`0x40`).
    pub prim_standard: bool,
    /// Bit 7 (`0x80`).
    pub prim_linked: bool,
    /// Bit 8 (`0x100`).
    pub prim_weighted: bool,
    /// Bit 9 (`0x200`).
    pub dof_override: bool,
    /// Bit 10 (`0x400`).
    pub uses_default_vs: bool,
    /// Bit 11 (`0x800`).
    pub uses_sprite_sa_vs: bool,
    /// Bit 12 (`0x1000`).
    pub uses_sprite_ao_vs: bool,
    /// Bit 13 (`0x2000`).
    pub alpha: bool,
    /// Bit 14 (`0x4000`).
    pub uses_simple_shader: bool,
    /// Bit 15 (`0x8000`).
    pub disable_instancing: bool,
    /// Bit 16 (`0x10000`).
    pub lm_hair: bool,
    /// Bit 17 (`0x20000`).
    pub sample_lighting: bool,
    /// Bit 18 (`0x40000`).
    pub horizon_mapping: bool,
    /// Bit 19 (`0x80000`).
    pub unknown_1: bool,
    /// Bit 20 (`0x100000`).
    pub unknown_2: bool,
    /// Bit 21 (`0x200000`).
    pub unknown_3: bool,
}

/// The bits of `ClassFlags` that carry a field.
pub const CLASS_FLAGS_MASK: u32 = 0x3fffff;

impl ClassFlags {
    /// The bit pattern that these flags stand for: one bit per field.
    #[verifier::opaque]
    pub open spec fn spec_bits(&self) -> u32 {
        (if self.reflection_2d { 0x1u32 } else { 0u32 })
        | (if self.refraction_2d { 0x2u32 } else { 0u32 })
        | (if self.lighting { 0x4u32 } else { 0u32 })
        | (if self.emissive { 0x8u32 } else { 0u32 })
        | (if self.discard { 0x10u32 } else { 0u32 })
        | (if self.lm_skin { 0x20u32 } else { 0u32 })
        | (if self.prim_standard { 0x40u32 } else { 0u32 })
        | (if self.prim_linked { 0x80u32 } else { 0u32 })
        | (if self.prim_weighted { 0x100u32 } else { 0u32 })
        | (if self.dof_override { 0x200u32 } else { 0u32 })
        | (if self.uses_default_vs { 0x400u32 } else { 0u32 })
        | (if self.uses_sprite_sa_vs { 0x800u32 } else { 0u32 })
        | (if self.uses_sprite_ao_vs { 0x1000u32 } else { 0u32 })
        | (if self.alpha { 0x2000u32 } else { 0u32 })
        | (if self.uses_simple_shader { 0x4000u32 } else { 0u32 })
        | (if self.disable_instancing { 0x8000u32 } else { 0u32 })
        | (if self.lm_hair { 0x10000u32 } else { 0u32 })
        | (if self.sample_lighting { 0x20000u32 } else { 0u32 })
        | (if self.horizon_mapping { 0x40000u32 } else { 0u32 })
        | (if self.unknown_1 { 0x80000u32 } else { 0u32 })
        | (if self.unknown_2 { 0x100000u32 } else { 0u32 })
        | (if self.unknown_3 { 0x200000u32 } else { 0u32 })
    }

    /// The flags that the bit pattern `flags` stands for.
    pub open spec fn spec_from_bits(flags: u32) -> Self {
        ClassFlags {
            reflection_2d: flags & 0x1 == 0x1,
            refraction_2d: flags & 0x2 == 0x2,
            lighting: flags & 0x4 == 0x4,
            emissive: flags & 0x8 == 0x8,
            discard: flags & 0x10 == 0x10,
            lm_skin: flags & 0x20 == 0x20,
            prim_standard: flags & 0x40 == 0x40,
            prim_linked: flags & 0x80 == 0x80,
            prim_weighted: flags & 0x100 == 0x100,
            dof_override: flags & 0x200 == 0x200,
            uses_default_vs: flags & 0x400 == 0x400,
            uses_sprite_sa_vs: flags & 0x800 == 0x800,
            uses_sprite_ao_vs: flags & 0x1000 == 0x1000,
            alpha: flags & 0x2000 == 0x2000,
            uses_simple_shader: flags & 0x4000 == 0x4000,
            disable_instancing: flags & 0x8000 == 0x8000,
            lm_hair: flags & 0x10000 == 0x10000,
            sample_lighting: flags & 0x20000 == 0x20000,
            horizon_mapping: flags & 0x40000 == 0x40000,
            unknown_1: flags & 0x80000 == 0x80000,
            unknown_2: flags & 0x100000 == 0x100000,
            unknown_3: flags & 0x200000 == 0x200000,
        }
    }

    /// Decodes every documented bit of `flags` into its field; other bits are ignored.
    pub fn from_u32(flags: u32) -> (r: Self)
        ensures
            r == Self::spec_from_bits(flags),
    {
        Self {
            reflection_2d: flags & 0x1 == 0x1,
            refraction_2d: flags & 0x2 == 0x2,
            lighting: flags & 0x4 == 0x4,
            emissive: flags & 0x8 == 0x8,
            discard: flags & 0x10 == 0x10,
            lm_skin: flags & 0x20 == 0x20,
            prim_standard: flags & 0x40 == 0x40,
            prim_linked: flags & 0x80 == 0x80,
            prim_weighted: flags & 0x100 == 0x100,
            dof_override: flags & 0x200 == 0x200,
            uses_default_vs: flags & 0x400 == 0x400,
            uses_sprite_sa_vs: flags & 0x800 == 0x800,
            uses_sprite_ao_vs: flags & 0x1000 == 0x1000,
            alpha: flags & 0x2000 == 0x2000,
            uses_simple_shader: flags & 0x4000 == 0x4000,
            disable_instancing: flags & 0x8000 == 0x8000,
            lm_hair: flags & 0x10000 == 0x10000,
            sample_lighting: flags & 0x20000 == 0x20000,
            horizon_mapping: flags & 0x40000 == 0x40000,
            unknown_1: flags & 0x80000 == 0x80000,
            unknown_2: flags & 0x100000 == 0x100000,
            unknown_3: flags & 0x200000 == 0x200000,
        }
    }

    /// Encodes the flags as a bit pattern, one bit per field.
    pub fn as_u32(&self) -> (r: u32)
        ensures
            r == self.spec_bits(),
    {
        reveal(ClassFlags::spec_bits);
        (if self.reflection_2d { 0x1u32 } else { 0u32 })
        | (if self.refraction_2d { 0x2u32 } else { 0u32 })
        | (if self.lighting { 0x4u32 } else { 0u32 })
        | (if self.emissive { 0x8u32 } else { 0u32 })
        | (if self.discard { 0x10u32 } else { 0u32 })
        | (if self.lm_skin { 0x20u32 } else { 0u32 })
        | (if self.prim_standard { 0x40u32 } else { 0u32 })
        | (if self.prim_linked { 0x80u32 } else { 0u32 })
        | (if self.prim_weighted { 0x100u32 } else { 0u32 })
        | (if self.dof_override { 0x200u32 } else { 0u32 })
        | (if self.uses_default_vs { 0x400u32 } else { 0u32 })
        | (if self.uses_sprite_sa_vs { 0x800u32 } else { 0u32 })
        | (if self.uses_sprite_ao_vs { 0x1000u32 } else { 0u32 })
        | (if self.alpha { 0x2000u32 } else { 0u32 })
        | (if self.uses_simple_shader { 0x4000u32 } else { 0u32 })
        | (if self.disable_instancing { 0x8000u32 } else { 0u32 })
        | (if self.lm_hair { 0x10000u32 } else { 0u32 })
        | (if self.sample_lighting { 0x20000u32 } else { 0u32 })
        | (if self.horizon_mapping { 0x40000u32 } else { 0u32 })
        | (if self.unknown_1 { 0x80000u32 } else { 0u32 })
        | (if self.unknown_2 { 0x100000u32 } else { 0u32 })
        | (if self.unknown_3 { 0x200000u32 } else { 0u32 })
    }
}

proof fn lemma_class_bits_decode(b0: bool, b1: bool, b2: bool, b3: bool, b4: bool, b5: bool, b6: bool, b7: bool, b8: bool, b9: bool, b10: bool, b11: bool, b12: bool, b13: bool, b14: bool, b15: bool, b16: bool, b17: bool, b18: bool, b19: bool, b20: bool, b21: bool, x: u32) by (bit_vector)
    requires
        x == (if b0 { 0x1u32 } else { 0u32 }) | (if b1 { 0x2u32 } else { 0u32 }) | (if b2 { 0x4u32 } else { 0u32 }) | (if b3 { 0x8u32 } else { 0u32 }) | (if b4 { 0x10u32 } else { 0u32 }) | (if b5 { 0x20u32 } else { 0u32 }) | (if b6 { 0x40u32 } else { 0u32 }) | (if b7 { 0x80u32 } else { 0u32 }) | (if b8 { 0x100u32 } else { 0u32 }) | (if b9 { 0x200u32 } else { 0u32 }) | (if b10 { 0x400u32 } else { 0u32 }) | (if b11 { 0x800u32 } else { 0u32 }) | (if b12 { 0x1000u32 } else { 0u32 }) | (if b13 { 0x2000u32 } else { 0u32 }) | (if b14 { 0x4000u32 } else { 0u32 }) | (if b15 { 0x8000u32 } else { 0u32 }) | (if b16 { 0x10000u32 } else { 0u32 }) | (if b17 { 0x20000u32 } else { 0u32 }) | (if b18 { 0x40000u32 } else { 0u32 }) | (if b19 { 0x80000u32 } else { 0u32 }) | (if b20 { 0x100000u32 } else { 0u32 }) | (if b21 { 0x200000u32 } else { 0u32 }),
    ensures
        (x & 0x1 == 0x1) == b0,
        (x & 0x2 == 0x2) == b1,
        (x & 0x4 == 0x4) == b2,
        (x & 0x8 == 0x8) == b3,
        (x & 0x10 == 0x10) == b4,
        (x & 0x20 == 0x20) == b5,
        (x & 0x40 == 0x40) == b6,
        (x & 0x80 == 0x80) == b7,
        (x & 0x100 == 0x100) == b8,
        (x & 0x200 == 0x200) == b9,
        (x & 0x400 == 0x400) == b10,
        (x & 0x800 == 0x800) == b11,
        (x & 0x1000 == 0x1000) == b12,
        (x & 0x2000 == 0x2000) == b13,
        (x & 0x4000 == 0x4000) == b14,
        (x & 0x8000 == 0x8000) == b15,
        (x & 0x10000 == 0x10000) == b16,
        (x & 0x20000 == 0x20000) == b17,
        (x & 0x40000 == 0x40000) == b18,
        (x & 0x80000 == 0x80000) == b19,
        (x & 0x100000 == 0x100000) == b20,
        (x & 0x200000 == 0x200000) == b21,
{
}

proof fn lemma_class_bits_encode(x: u32, y: u32) by (bit_vector)
    requires
        y == (if x & 0x1 == 0x1 { 0x1u32 } else { 0u32 }) | (if x & 0x2 == 0x2 { 0x2u32 } else { 0u32 }) | (if x & 0x4 == 0x4 { 0x4u32 } else { 0u32 }) | (if x & 0x8 == 0x8 { 0x8u32 } else { 0u32 }) | (if x & 0x10 == 0x10 { 0x10u32 } else { 0u32 }) | (if x & 0x20 == 0x20 { 0x20u32 } else { 0u32 }) | (if x & 0x40 == 0x40 { 0x40u32 } else { 0u32 }) | (if x & 0x80 == 0x80 { 0x80u32 } else { 0u32 }) | (if x & 0x100 == 0x100 { 0x100u32 } else { 0u32 }) | (if x & 0x200 == 0x200 { 0x200u32 } else { 0u32 }) | (if x & 0x400 == 0x400 { 0x400u32 } else { 0u32 }) | (if x & 0x800 == 0x800 { 0x800u32 } else { 0u32 }) | (if x & 0x1000 == 0x1000 { 0x1000u32 } else { 0u32 }) | (if x & 0x2000 == 0x2000 { 0x2000u32 } else { 0u32 }) | (if x & 0x4000 == 0x4000 { 0x4000u32 } else { 0u32 }) | (if x & 0x8000 == 0x8000 { 0x8000u32 } else { 0u32 }) | (if x & 0x10000 == 0x10000 { 0x10000u32 } else { 0u32 }) | (if x & 0x20000 == 0x20000 { 0x20000u32 } else { 0u32 }) | (if x & 0x40000 == 0x40000 { 0x40000u32 } else { 0u32 }) | (if x & 0x80000 == 0x80000 { 0x80000u32 } else { 0u32 }) | (if x & 0x100000 == 0x100000 { 0x100000u32 } else { 0u32 }) | (if x & 0x200000 == 0x200000 { 0x200000u32 } else { 0u32 }),
    ensures
        y == x & 0x3fffff,
{
}

/// Decoding the bit pattern of any `ClassFlags` gives back the same flags.
pub proof fn lemma_class_flags_decode_encode(f: ClassFlags)
    ensures
        ClassFlags::spec_from_bits(f.spec_bits()) == f,
{
    assert(f.spec_bits() == (if f.reflection_2d { 0x1u32 } else { 0u32 }) | (if f.refraction_2d { 0x2u32 } else { 0u32 }) | (if f.lighting { 0x4u32 } else { 0u32 }) | (if f.emissive { 0x8u32 } else { 0u32 }) | (if f.discard { 0x10u32 } else { 0u32 }) | (if f.lm_skin { 0x20u32 } else { 0u32 }) | (if f.prim_standard { 0x40u32 } else { 0u32 }) | (if f.prim_linked { 0x80u32 } else { 0u32 }) | (if f.prim_weighted { 0x100u32 } else { 0u32 }) | (if f.dof_override { 0x200u32 } else { 0u32 }) | (if f.uses_default_vs { 0x400u32 } else { 0u32 }) | (if f.uses_sprite_sa_vs { 0x800u32 } else { 0u32 }) | (if f.uses_sprite_ao_vs { 0x1000u32 } else { 0u32 }) | (if f.alpha { 0x2000u32 } else { 0u32 }) | (if f.uses_simple_shader { 0x4000u32 } else { 0u32 }) | (if f.disable_instancing { 0x8000u32 } else { 0u32 }) | (if f.lm_hair { 0x10000u32 } else { 0u32 }) | (if f.sample_lighting { 0x20000u32 } else { 0u32 }) | (if f.horizon_mapping { 0x40000u32 } else { 0u32 }) | (if f.unknown_1 { 0x80000u32 } else { 0u32 }) | (if f.unknown_2 { 0x100000u32 } else { 0u32 }) | (if f.unknown_3 { 0x200000u32 } else { 0u32 })) by {
        reveal(ClassFlags::spec_bits);
    }
    lemma_class_bits_decode(f.reflection_2d, f.refraction_2d, f.lighting, f.emissive, f.discard, f.lm_skin, f.prim_standard, f.prim_linked, f.prim_weighted, f.dof_override, f.uses_default_vs, f.uses_sprite_sa_vs, f.uses_sprite_ao_vs, f.alpha, f.uses_simple_shader, f.disable_instancing, f.lm_hair, f.sample_lighting, f.horizon_mapping, f.unknown_1, f.unknown_2, f.unknown_3, f.spec_bits());
}

/// Encoding the flags decoded from any bit pattern gives back every bit that
/// carries a field, and clears the others.
pub proof fn lemma_class_flags_encode_decode(x: u32)
    ensures
        ClassFlags::spec_from_bits(x).spec_bits() == x & CLASS_FLAGS_MASK,
{
    let g = ClassFlags::spec_from_bits(x);
    assert(g.spec_bits() == (if x & 0x1 == 0x1 { 0x1u32 } else { 0u32 }) | (if x & 0x2 == 0x2 { 0x2u32 } else { 0u32 }) | (if x & 0x4 == 0x4 { 0x4u32 } else { 0u32 }) | (if x & 0x8 == 0x8 { 0x8u32 } else { 0u32 }) | (if x & 0x10 == 0x10 { 0x10u32 } else { 0u32 }) | (if x & 0x20 == 0x20 { 0x20u32 } else { 0u32 }) | (if x & 0x40 == 0x40 { 0x40u32 } else { 0u32 }) | (if x & 0x80 == 0x80 { 0x80u32 } else { 0u32 }) | (if x & 0x100 == 0x100 { 0x100u32 } else { 0u32 }) | (if x & 0x200 == 0x200 { 0x200u32 } else { 0u32 }) | (if x & 0x400 == 0x400 { 0x400u32 } else { 0u32 }) | (if x & 0x800 == 0x800 { 0x800u32 } else { 0u32 }) | (if x & 0x1000 == 0x1000 { 0x1000u32 } else { 0u32 }) | (if x & 0x2000 == 0x2000 { 0x2000u32 } else { 0u32 }) | (if x & 0x4000 == 0x4000 { 0x4000u32 } else { 0u32 }) | (if x & 0x8000 == 0x8000 { 0x8000u32 } else { 0u32 }) | (if x & 0x10000 == 0x10000 { 0x10000u32 } else { 0u32 }) | (if x & 0x20000 == 0x20000 { 0x20000u32 } else { 0u32 }) | (if x & 0x40000 == 0x40000 { 0x40000u32 } else { 0u32 }) | (if x & 0x80000 == 0x80000 { 0x80000u32 } else { 0u32 }) | (if x & 0x100000 == 0x100000 { 0x100000u32 } else { 0u32 }) | (if x & 0x200000 == 0x200000 { 0x200000u32 } else { 0u32 })) by {
        reveal(ClassFlags::spec_bits);
    }
    lemma_class_bits_encode(x, g.spec_bits());
}

/// The instance flags of a material: how an instance of it is rendered.
#[derive(Clone, Copy, Debug, PartialEq, Eq, Hash, Structural)]
pub struct InstanceFlags {
    /// Bit 0 (`0x1`).
    pub opaque_emissive: bool,
    /// Bit 1 (`0x2`).
    pub trans_emissive: bool,
    /// Bit 2 (`0x4`).
    pub trans_add_emissive: bool,
    /// Bit 3 (`0x8`).
    pub opaque_lit: bool,
    /// Bit 4 (`0x10`).
    pub trans_lit: bool,
    /// Bit 5 (`0x20`).
    pub decal: bool,
    /// Bit 6 (`0x40`).
    pub refractive: bool,
    /// Bit 7 (`0x80`).
    pub lm_skin: bool,
    /// Bit 8 (`0x100`).
    pub lm_hair: bool,
    /// Bit 9 (`0x200`).
    pub force_emissive: bool,
    /// Bit 10 (`0x400`).
    pub disable_shader_lod: bool,
    /// Bit 11 (`0x800`).
    pub discard: bool,
    /// Bit 12 (`0x1000`).
    pub decal_emissive: bool,
    /// Bit 13 (`0x2000`).
    pub water_clipping: bool,
    /// Bit 14 (`0x4000`).
    pub sample_lighting: bool,
    /// Bit 15 (`0x8000`).
    pub exclude_global_shadows: bool,
}

/// The bits of `InstanceFlags` that carry a field.
pub const INSTANCE_FLAGS_MASK: u32 = 0xffff;

impl InstanceFlags {
    /// The bit pattern that these flags stand for: one bit per field.
    #[verifier::opaque]
    pub open spec fn spec_bits(&self) -> u32 {
        (if self.opaque_emissive { 0x1u32 } else { 0u32 })
        | (if self.trans_emissive { 0x2u32 } else { 0u32 })
        | (if self.trans_add_emissive { 0x4u32 } else { 0u32 })
        | (if self.opaque_lit { 0x8u32 } else { 0u32 })
        | (if self.trans_lit { 0x10u32 } else { 0u32 })
        | (if self.decal { 0x20u32 } else { 0u32 })
        | (if self.refractive { 0x40u32 } else { 0u32 })
        | (if self.lm_skin { 0x80u32 } else { 0u32 })
        | (if self.lm_hair { 0x100u32 } else { 0u32 })
        | (if self.force_emissive { 0x200u32 } else { 0u32 })
        | (if self.disable_shader_lod { 0x400u32 } else { 0u32 })
        | (if self.discard { 0x800u32 } else { 0u32 })
        | (if self.decal_emissive { 0x1000u32 } else { 0u32 })
        | (if self.water_clipping { 0x2000u32 } else { 0u32 })
        | (if self.sample_lighting { 0x4000u32 } else { 0u32 })
        | (if self.exclude_global_shadows { 0x8000u32 } else { 0u32 })
    }

    /// The flags that the bit pattern `flags` stands for.
    pub open spec fn spec_from_bits(flags: u32) -> Self {
        InstanceFlags {
            opaque_emissive: flags & 0x1 == 0x1,
            trans_emissive: flags & 0x2 == 0x2,
            trans_add_emissive: flags & 0x4 == 0x4,
            opaque_lit: flags & 0x8 == 0x8,
            trans_lit: flags & 0x10 == 0x10,
            decal: flags & 0x20 == 0x20,
            refractive: flags & 0x40 == 0x40,
            lm_skin: flags & 0x80 == 0x80,
            lm_hair: flags & 0x100 == 0x100,
            force_emissive: flags & 0x200 == 0x200,
            disable_shader_lod: flags & 0x400 == 0x400,
            discard: flags & 0x800 == 0x800,
            decal_emissive: flags & 0x1000 == 0x1000,
            water_clipping: flags & 0x2000 == 0x2000,
            sample_lighting: flags & 0x4000 == 0x4000,
            exclude_global_shadows: flags & 0x8000 == 0x8000,
        }
    }

    /// Decodes every documented bit of `flags` into its field; other bits are ignored.
    pub fn from_u32(flags: u32) -> (r: Self)
        ensures
            r == Self::spec_from_bits(flags),
    {
        Self {
            opaque_emissive: flags & 0x1 == 0x1,
            trans_emissive: flags & 0x2 == 0x2,
            trans_add_emissive: flags & 0x4 == 0x4,
            opaque_lit: flags & 0x8 == 0x8,
            trans_lit: flags & 0x10 == 0x10,
            decal: flags & 0x20 == 0x20,
            refractive: flags & 0x40 == 0x40,
            lm_skin: flags & 0x80 == 0x80,
            lm_hair: flags & 0x100 == 0x100,
            force_emissive: flags & 0x200 == 0x200,
            disable_shader_lod: flags & 0x400 == 0x400,
            discard: flags & 0x800 == 0x800,
            decal_emissive: flags & 0x1000 == 0x1000,
            water_clipping: flags & 0x2000 == 0x2000,
            sample_lighting: flags & 0x4000 == 0x4000,
            exclude_global_shadows: flags & 0x8000 == 0x8000,
        }
    }

    /// Encodes the flags as a bit pattern, one bit per field.
    pub fn as_u32(&self) -> (r: u32)
        ensures
            r == self.spec_bits(),
    {
        reveal(InstanceFlags::spec_bits);
        (if self.opaque_emissive { 0x1u32 } else { 0u32 })
        | (if self.trans_emissive { 0x2u32 } else { 0u32 })
        | (if self.trans_add_emissive { 0x4u32 } else { 0u32 })
        | (if self.opaque_lit { 0x8u32 } else { 0u32 })
        | (if self.trans_lit { 0x10u32 } else { 0u32 })
        | (if self.decal { 0x20u32 } else { 0u32 })
        | (if self.refractive { 0x40u32 } else { 0u32 })
        | (if self.lm_skin { 0x80u32 } else { 0u32 })
        | (if self.lm_hair { 0x100u32 } else { 0u32 })
        | (if self.force_emissive { 0x200u32 } else { 0u32 })
        | (if self.disable_shader_lod { 0x400u32 } else { 0u32 })
        | (if self.discard { 0x800u32 } else { 0u32 })
        | (if self.decal_emissive { 0x1000u32 } else { 0u32 })
        | (if self.water_clipping { 0x2000u32 } else { 0u32 })
        | (if self.sample_lighting { 0x4000u32 } else { 0u32 })
        | (if self.exclude_global_shadows { 0x8000u32 } else { 0u32 })
    }
}

proof fn lemma_instance_bits_decode(b0: bool, b1: bool, b2: bool, b3: bool, b4: bool, b5: bool, b6: bool, b7: bool, b8: bool, b9: bool, b10: bool, b11: bool, b12: bool, b13: bool, b14: bool, b15: bool, x: u32) by (bit_vector)
    requires
        x == (if b0 { 0x1u32 } else { 0u32 }) | (if b1 { 0x2u32 } else { 0u32 }) | (if b2 { 0x4u32 } else { 0u32 }) | (if b3 { 0x8u32 } else { 0u32 }) | (if b4 { 0x10u32 } else { 0u32 }) | (if b5 { 0x20u32 } else { 0u32 }) | (if b6 { 0x40u32 } else { 0u32 }) | (if b7 { 0x80u32 } else { 0u32 }) | (if b8 { 0x100u32 } else { 0u32 }) | (if b9 { 0x200u32 } else { 0u32 }) | (if b10 { 0x400u32 } else { 0u32 }) | (if b11 { 0x800u32 } else { 0u32 }) | (if b12 { 0x1000u32 } else { 0u32 }) | (if b13 { 0x2000u32 } else { 0u32 }) | (if b14 { 0x4000u32 } else { 0u32 }) | (if b15 { 0x8000u32 } else { 0u32 }),
    ensures
        (x & 0x1 == 0x1) == b0,
        (x & 0x2 == 0x2) == b1,
        (x & 0x4 == 0x4) == b2,
        (x & 0x8 == 0x8) == b3,
        (x & 0x10 == 0x10) == b4,
        (x & 0x20 == 0x20) == b5,
        (x & 0x40 == 0x40) == b6,
        (x & 0x80 == 0x80) == b7,
        (x & 0x100 == 0x100) == b8,
        (x & 0x200 == 0x200) == b9,
        (x & 0x400 == 0x400) == b10,
        (x & 0x800 == 0x800) == b11,
        (x & 0x1000 == 0x1000) == b12,
        (x & 0x2000 == 0x2000) == b13,
        (x & 0x4000 == 0x4000) == b14,
        (x & 0x8000 == 0x8000) == b15,
{
}

proof fn lemma_instance_bits_encode(x: u32, y: u32) by (bit_vector)
    requires
        y == (if x & 0x1 == 0x1 { 0x1u32 } else { 0u32 }) | (if x & 0x2 == 0x2 { 0x2u32 } else { 0u32 }) | (if x & 0x4 == 0x4 { 0x4u32 } else { 0u32 }) | (if x & 0x8 == 0x8 { 0x8u32 } else { 0u32 }) | (if x & 0x10 == 0x10 { 0x10u32 } else { 0u32 }) | (if x & 0x20 == 0x20 { 0x20u32 } else { 0u32 }) | (if x & 0x40 == 0x40 { 0x40u32 } else { 0u32 }) | (if x & 0x80 == 0x80 { 0x80u32 } else { 0u32 }) | (if x & 0x100 == 0x100 { 0x100u32 } else { 0u32 }) | (if x & 0x200 == 0x200 { 0x200u32 } else { 0u32 }) | (if x & 0x400 == 0x400 { 0x400u32 } else { 0u32 }) | (if x & 0x800 == 0x800 { 0x800u32 } else { 0u32 }) | (if x & 0x1000 == 0x1000 { 0x1000u32 } else { 0u32 }) | (if x & 0x2000 == 0x2000 { 0x2000u32 } else { 0u32 }) | (if x & 0x4000 == 0x4000 { 0x4000u32 } else { 0u32 }) | (if x & 0x8000 == 0x8000 { 0x8000u32 } else { 0u32 }),
    ensures
        y == x & 0xffff,
{
}

/// Decoding the bit pattern of any `InstanceFlags` gives back the same flags.
pub proof fn lemma_instance_flags_decode_encode(f: InstanceFlags)
    ensures
        InstanceFlags::spec_from_bits(f.spec_bits()) == f,
{
    assert(f.spec_bits() == (if f.opaque_emissive { 0x1u32 } else { 0u32 }) | (if f.trans_emissive { 0x2u32 } else { 0u32 }) | (if f.trans_add_emissive { 0x4u32 } else { 0u32 }) | (if f.opaque_lit { 0x8u32 } else { 0u32 }) | (if f.trans_lit { 0x10u32 } else { 0u32 }) | (if f.decal { 0x20u32 } else { 0u32 }) | (if f.refractive { 0x40u32 } else { 0u32 }) | (if f.lm_skin { 0x80u32 } else { 0u32 }) | (if f.lm_hair { 0x100u32 } else { 0u32 }) | (if f.force_emissive { 0x200u32 } else { 0u32 }) | (if f.disable_shader_lod { 0x400u32 } else { 0u32 }) | (if f.discard { 0x800u32 } else { 0u32 }) | (if f.decal_emissive { 0x1000u32 } else { 0u32 }) | (if f.water_clipping { 0x2000u32 } else { 0u32 }) | (if f.sample_lighting { 0x4000u32 } else { 0u32 }) | (if f.exclude_global_shadows { 0x8000u32 } else { 0u32 })) by {
        reveal(InstanceFlags::spec_bits);
    }
    lemma_instance_bits_decode(f.opaque_emissive, f.trans_emissive, f.trans_add_emissive, f.opaque_lit, f.trans_lit, f.decal, f.refractive, f.lm_skin, f.lm_hair, f.force_emissive, f.disable_shader_lod, f.discard, f.decal_emissive, f.water_clipping, f.sample_lighting, f.exclude_global_shadows, f.spec_bits());
}

/// Encoding the flags decoded from any bit pattern gives back every bit that
/// carries a field, and clears the others.
pub proof fn lemma_instance_flags_encode_decode(x: u32)
    ensures
        InstanceFlags::spec_from_bits(x).spec_bits() == x & INSTANCE_FLAGS_MASK,
{
    let g = InstanceFlags::spec_from_bits(x);
    assert(g.spec_bits() == (if x & 0x1 == 0x1 { 0x1u32 } else { 0u32 }) | (if x & 0x2 == 0x2 { 0x2u32 } else { 0u32 }) | (if x & 0x4 == 0x4 { 0x4u32 } else { 0u32 }) | (if x & 0x8 == 0x8 { 0x8u32 } else { 0u32 }) | (if x & 0x10 == 0x10 { 0x10u32 } else { 0u32 }) | (if x & 0x20 == 0x20 { 0x20u32 } else { 0u32 }) | (if x & 0x40 == 0x40 { 0x40u32 } else { 0u32 }) | (if x & 0x80 == 0x80 { 0x80u32 } else { 0u32 }) | (if x & 0x100 == 0x100 { 0x100u32 } else { 0u32 }) | (if x & 0x200 == 0x200 { 0x200u32 } else { 0u32 }) | (if x & 0x400 == 0x400 { 0x400u32 } else { 0u32 }) | (if x & 0x800 == 0x800 { 0x800u32 } else { 0u32 }) | (if x & 0x1000 == 0x1000 { 0x1000u32 } else { 0u32 }) | (if x & 0x2000 == 0x2000 { 0x2000u32 } else { 0u32 }) | (if x & 0x4000 == 0x4000 { 0x4000u32 } else { 0u32 }) | (if x & 0x8000 == 0x8000 { 0x8000u32 } else { 0u32 })) by {
        reveal(InstanceFlags::spec_bits);
    }
    lemma_instance_bits_encode(x, g.spec_bits());
}

} // verus!
