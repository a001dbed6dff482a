//! The tags of the property tree: four characters that name what a node
//! holds, each with the one kind of value that it may carry.

use vstd::prelude::*;

verus! {

// A tag is stored as a little-endian `u32` whose bytes are its characters in
// reverse order, so its code reads as the characters in order, most
// significant byte first.

/// The code of `TXID`, a texture reference (an integer table index).
pub const TAG_TXID: u32 = 0x54584944;

/// The code of `VALU`, a single float or a float vector.
pub const TAG_VALU: u32 = 0x56414c55;

/// A tag whose value is a 32-bit integer.
#[derive(Clone, Copy, Debug, PartialEq, Eq, Hash, Structural)]
pub enum IntTag {
    /// `AREF`
    AlphaReference,
    /// `ATST`
    AlphaTestEnabled,
    /// `BENA`
    BlendEnabled,
    /// `DBDE`
    DecalBlendDiffuse,
    /// `DBEE`
    DecalBlendEmission,
    /// `DBNE`
    DecalBlendNormal,
    /// `DBRE`
    DecalBlendRoughness,
    /// `DBSE`
    DecalBlendSpecular,
    /// `ENAB`
    Enabled,
    /// `FENA`
    FogEnabled,
    /// `ZBIA`
    ZBias,
}

impl IntTag {
    /// The code of this tag.
    pub open spec fn spec_code(self) -> u32 {
        match self {
            IntTag::AlphaReference => 0x41524546,
            IntTag::AlphaTestEnabled => 0x41545354,
            IntTag::BlendEnabled => 0x42454e41,
            IntTag::DecalBlendDiffuse => 0x44424445,
            IntTag::DecalBlendEmission => 0x44424545,
            IntTag::DecalBlendNormal => 0x44424e45,
            IntTag::DecalBlendRoughness => 0x44425245,
            IntTag::DecalBlendSpecular => 0x44425345,
            IntTag::Enabled => 0x454e4142,
            IntTag::FogEnabled => 0x46454e41,
            IntTag::ZBias => 0x5a424941,
        }
    }

    /// The tag of this kind that has the code `c`, if any.
    pub open spec fn spec_from_code(c: u32) -> Option<Self> {
        if c == 0x41524546 {
            Some(IntTag::AlphaReference)
        } else if c == 0x41545354 {
            Some(IntTag::AlphaTestEnabled)
        } else if c == 0x42454e41 {
            Some(IntTag::BlendEnabled)
        } else if c == 0x44424445 {
            Some(IntTag::DecalBlendDiffuse)
        } else if c == 0x44424545 {
            Some(IntTag::DecalBlendEmission)
        } else if c == 0x44424e45 {
            Some(IntTag::DecalBlendNormal)
        } else if c == 0x44425245 {
            Some(IntTag::DecalBlendRoughness)
        } else if c == 0x44425345 {
            Some(IntTag::DecalBlendSpecular)
        } else if c == 0x454e4142 {
            Some(IntTag::Enabled)
        } else if c == 0x46454e41 {
            Some(IntTag::FogEnabled)
        } else if c == 0x5a424941 {
            Some(IntTag::ZBias)
        } else {
            None
        }
    }

    /// The code of this tag.
    pub fn code(&self) -> (r: u32)
        ensures
            r == self.spec_code(),
    {
        match self {
            IntTag::AlphaReference => 0x41524546,
            IntTag::AlphaTestEnabled => 0x41545354,
            IntTag::BlendEnabled => 0x42454e41,
            IntTag::DecalBlendDiffuse => 0x44424445,
            IntTag::DecalBlendEmission => 0x44424545,
            IntTag::DecalBlendNormal => 0x44424e45,
            IntTag::DecalBlendRoughness => 0x44425245,
            IntTag::DecalBlendSpecular => 0x44425345,
            IntTag::Enabled => 0x454e4142,
            IntTag::FogEnabled => 0x46454e41,
            IntTag::ZBias => 0x5a424941,
        }
    }

    /// The tag of this kind that has the code `c`, if any.
    pub fn from_code(c: u32) -> (r: Option<Self>)
        ensures
            r == Self::spec_from_code(c),
    {
        if c == 0x41524546 {
            Some(IntTag::AlphaReference)
        } else if c == 0x41545354 {
            Some(IntTag::AlphaTestEnabled)
        } else if c == 0x42454e41 {
            Some(IntTag::BlendEnabled)
        } else if c == 0x44424445 {
            Some(IntTag::DecalBlendDiffuse)
        } else if c == 0x44424545 {
            Some(IntTag::DecalBlendEmission)
        } else if c == 0x44424e45 {
            Some(IntTag::DecalBlendNormal)
        } else if c == 0x44425245 {
            Some(IntTag::DecalBlendRoughness)
        } else if c == 0x44425345 {
            Some(IntTag::DecalBlendSpecular)
        } else if c == 0x454e4142 {
            Some(IntTag::Enabled)
        } else if c == 0x46454e41 {
            Some(IntTag::FogEnabled)
        } else if c == 0x5a424941 {
            Some(IntTag::ZBias)
        } else {
            None
        }
    }
}

/// A tag whose value is a string.
#[derive(Clone, Copy, Debug, PartialEq, Eq, Hash, Structural)]
pub enum TextTag {
    /// `BMOD`
    BlendMode,
    /// `CULL`
    CullingMode,
    /// `NAME`
    Name,
    /// `TAGS`
    Tags,
    /// `TILU`
    TilingU,
    /// `TILV`
    TilingV,
    /// `TYPE`
    Type,
}

impl TextTag {
    /// The code of this tag.
    pub open spec fn spec_code(self) -> u32 {
        match self {
            TextTag::BlendMode => 0x424d4f44,
            TextTag::CullingMode => 0x43554c4c,
            TextTag::Name => 0x4e414d45,
            TextTag::Tags => 0x54414753,
            TextTag::TilingU => 0x54494c55,
            TextTag::TilingV => 0x54494c56,
            TextTag::Type => 0x54595045,
        }
    }

    /// The tag of this kind that has the code `c`, if any.
    pub open spec fn spec_from_code(c: u32) -> Option<Self> {
        if c == 0x424d4f44 {
            Some(TextTag::BlendMode)
        } else if c == 0x43554c4c {
            Some(TextTag::CullingMode)
        } else if c == 0x4e414d45 {
            Some(TextTag::Name)
        } else if c == 0x54414753 {
            Some(TextTag::Tags)
        } else if c == 0x54494c55 {
            Some(TextTag::TilingU)
        } else if c == 0x54494c56 {
            Some(TextTag::TilingV)
        } else if c == 0x54595045 {
            Some(TextTag::Type)
        } else {
            None
        }
    }

    /// The code of this tag.
    pub fn code(&self) -> (r: u32)
        ensures
            r == self.spec_code(),
    {
        match self {
            TextTag::BlendMode => 0x424d4f44,
            TextTag::CullingMode => 0x43554c4c,
            TextTag::Name => 0x4e414d45,
            TextTag::Tags => 0x54414753,
            TextTag::TilingU => 0x54494c55,
            TextTag::TilingV => 0x54494c56,
            TextTag::Type => 0x54595045,
        }
    }

    /// The tag of this kind that has the code `c`, if any.
    pub fn from_code(c: u32) -> (r: Option<Self>)
        ensures
            r == Self::spec_from_code(c),
    {
        if c == 0x424d4f44 {
            Some(TextTag::BlendMode)
        } else if c == 0x43554c4c {
            Some(TextTag::CullingMode)
        } else if c == 0x4e414d45 {
            Some(TextTag::Name)
        } else if c == 0x54414753 {
            Some(TextTag::Tags)
        } else if c == 0x54494c55 {
            Some(TextTag::TilingU)
        } else if c == 0x54494c56 {
            Some(TextTag::TilingV)
        } else if c == 0x54595045 {
            Some(TextTag::Type)
        } else {
            None
        }
    }
}

/// A tag whose value is a list of child nodes.
#[derive(Clone, Copy, Debug, PartialEq, Eq, Hash, Structural)]
pub enum NestedTag {
    /// `BIND`
    Binder,
    /// `COLO`
    Color,
    /// `COL4`
    Color4,
    /// `FLTV`
    FloatValue,
    /// `INST`
    Instance,
    /// `RSTA`
    RenderState,
    /// `TEXT`
    Texture,
}

impl NestedTag {
    /// The code of this tag.
    pub open spec fn spec_code(self) -> u32 {
        match self {
            NestedTag::Binder => 0x42494e44,
            NestedTag::Color => 0x434f4c4f,
            NestedTag::Color4 => 0x434f4c34,
            NestedTag::FloatValue => 0x464c5456,
            NestedTag::Instance => 0x494e5354,
            NestedTag::RenderState => 0x52535441,
            NestedTag::Texture => 0x54455854,
        }
    }

    /// The tag of this kind that has the code `c`, if any.
    pub open spec fn spec_from_code(c: u32) -> Option<Self> {
        if c == 0x42494e44 {
            Some(NestedTag::Binder)
        } else if c == 0x434f4c4f {
            Some(NestedTag::Color)
        } else if c == 0x434f4c34 {
            Some(NestedTag::Color4)
        } else if c == 0x464c5456 {
            Some(NestedTag::FloatValue)
        } else if c == 0x494e5354 {
            Some(NestedTag::Instance)
        } else if c == 0x52535441 {
            Some(NestedTag::RenderState)
        } else if c == 0x54455854 {
            Some(NestedTag::Texture)
        } else {
            None
        }
    }

    /// The code of this tag.
    pub fn code(&self) -> (r: u32)
        ensures
            r == self.spec_code(),
    {
        match self {
            NestedTag::Binder => 0x42494e44,
            NestedTag::Color => 0x434f4c4f,
            NestedTag::Color4 => 0x434f4c34,
            NestedTag::FloatValue => 0x464c5456,
            NestedTag::Instance => 0x494e5354,
            NestedTag::RenderState => 0x52535441,
            NestedTag::Texture => 0x54455854,
        }
    }

    /// The tag of this kind that has the code `c`, if any.
    pub fn from_code(c: u32) -> (r: Option<Self>)
        ensures
            r == Self::spec_from_code(c),
    {
        if c == 0x42494e44 {
            Some(NestedTag::Binder)
        } else if c == 0x434f4c4f {
            Some(NestedTag::Color)
        } else if c == 0x434f4c34 {
            Some(NestedTag::Color4)
        } else if c == 0x464c5456 {
            Some(NestedTag::FloatValue)
        } else if c == 0x494e5354 {
            Some(NestedTag::Instance)
        } else if c == 0x52535441 {
            Some(NestedTag::RenderState)
        } else if c == 0x54455854 {
            Some(NestedTag::Texture)
        } else {
            None
        }
    }
}

/// A tag whose value is a single float.
#[derive(Clone, Copy, Debug, PartialEq, Eq, Hash, Structural)]
pub enum FloatTag {
    /// `OPAC`
    Opacity,
    /// `ZOFF`
    ZOffset,
    /// `SSBW`
    SubsurfaceValue,
    /// `SSVB`
    SubsurfaceBlue,
    /// `SSVG`
    SubsurfaceGreen,
    /// `SSVR`
    SubsurfaceRed,
}

impl FloatTag {
    /// The code of this tag.
    pub open spec fn spec_code(self) -> u32 {
        match self {
            FloatTag::Opacity => 0x4f504143,
            FloatTag::ZOffset => 0x5a4f4646,
            FloatTag::SubsurfaceValue => 0x53534257,
            FloatTag::SubsurfaceBlue => 0x53535642,
            FloatTag::SubsurfaceGreen => 0x53535647,
            FloatTag::SubsurfaceRed => 0x53535652,
        }
    }

    /// The tag of this kind that has the code `c`, if any.
    pub open spec fn spec_from_code(c: u32) -> Option<Self> {
        if c == 0x4f504143 {
            Some(FloatTag::Opacity)
        } else if c == 0x5a4f4646 {
            Some(FloatTag::ZOffset)
        } else if c == 0x53534257 {
            Some(FloatTag::SubsurfaceValue)
        } else if c == 0x53535642 {
            Some(FloatTag::SubsurfaceBlue)
        } else if c == 0x53535647 {
            Some(FloatTag::SubsurfaceGreen)
        } else if c == 0x53535652 {
            Some(FloatTag::SubsurfaceRed)
        } else {
            None
        }
    }

    /// The code of this tag.
    pub fn code(&self) -> (r: u32)
        ensures
            r == self.spec_code(),
    {
        match self {
            FloatTag::Opacity => 0x4f504143,
            FloatTag::ZOffset => 0x5a4f4646,
            FloatTag::SubsurfaceValue => 0x53534257,
            FloatTag::SubsurfaceBlue => 0x53535642,
            FloatTag::SubsurfaceGreen => 0x53535647,
            FloatTag::SubsurfaceRed => 0x53535652,
        }
    }

    /// The tag of this kind that has the code `c`, if any.
    pub fn from_code(c: u32) -> (r: Option<Self>)
        ensures
            r == Self::spec_from_code(c),
    {
        if c == 0x4f504143 {
            Some(FloatTag::Opacity)
        } else if c == 0x5a4f4646 {
            Some(FloatTag::ZOffset)
        } else if c == 0x53534257 {
            Some(FloatTag::SubsurfaceValue)
        } else if c == 0x53535642 {
            Some(FloatTag::SubsurfaceBlue)
        } else if c == 0x53535647 {
            Some(FloatTag::SubsurfaceGreen)
        } else if c == 0x53535652 {
            Some(FloatTag::SubsurfaceRed)
        } else {
            None
        }
    }
}

/// Whether `c` is the code of a tag of any kind.
pub open spec fn spec_is_known_tag(c: u32) -> bool {
    c == TAG_TXID || c == TAG_VALU || IntTag::spec_from_code(c) is Some || TextTag::spec_from_code(c)
        is Some || NestedTag::spec_from_code(c) is Some || FloatTag::spec_from_code(c) is Some
}

/// Whether `c` is the code of a tag of any kind.
pub fn is_known_tag(c: u32) -> (r: bool)
    ensures
        r == spec_is_known_tag(c),
{
    c == TAG_TXID || c == TAG_VALU || IntTag::from_code(c).is_some() || TextTag::from_code(c).is_some()
        || NestedTag::from_code(c).is_some() || FloatTag::from_code(c).is_some()
}

/// Each tag's code names that tag and no other.
pub proof fn lemma_tag_codes_unique()
    ensures
        forall|t: IntTag| #[trigger] IntTag::spec_from_code(t.spec_code()) == Some(t),
        forall|t: IntTag| #[trigger] TextTag::spec_from_code(t.spec_code()) is None,
        forall|t: IntTag| #[trigger] NestedTag::spec_from_code(t.spec_code()) is None,
        forall|t: IntTag| #[trigger] FloatTag::spec_from_code(t.spec_code()) is None,
        forall|t: IntTag| #[trigger] t.spec_code() != TAG_TXID && t.spec_code() != TAG_VALU,
        forall|t: TextTag| #[trigger] TextTag::spec_from_code(t.spec_code()) == Some(t),
        forall|t: TextTag| #[trigger] IntTag::spec_from_code(t.spec_code()) is None,
        forall|t: TextTag| #[trigger] NestedTag::spec_from_code(t.spec_code()) is None,
        forall|t: TextTag| #[trigger] FloatTag::spec_from_code(t.spec_code()) is None,
        forall|t: TextTag| #[trigger] t.spec_code() != TAG_TXID && t.spec_code() != TAG_VALU,
        forall|t: NestedTag| #[trigger] NestedTag::spec_from_code(t.spec_code()) == Some(t),
        forall|t: NestedTag| #[trigger] IntTag::spec_from_code(t.spec_code()) is None,
        forall|t: NestedTag| #[trigger] TextTag::spec_from_code(t.spec_code()) is None,
        forall|t: NestedTag| #[trigger] FloatTag::spec_from_code(t.spec_code()) is None,
        forall|t: NestedTag| #[trigger] t.spec_code() != TAG_TXID && t.spec_code() != TAG_VALU,
        forall|t: FloatTag| #[trigger] FloatTag::spec_from_code(t.spec_code()) == Some(t),
        forall|t: FloatTag| #[trigger] IntTag::spec_from_code(t.spec_code()) is None,
        forall|t: FloatTag| #[trigger] TextTag::spec_from_code(t.spec_code()) is None,
        forall|t: FloatTag| #[trigger] NestedTag::spec_from_code(t.spec_code()) is None,
        forall|t: FloatTag| #[trigger] t.spec_code() != TAG_TXID && t.spec_code() != TAG_VALU,
        IntTag::spec_from_code(TAG_TXID) is None && IntTag::spec_from_code(TAG_VALU) is None,
        TextTag::spec_from_code(TAG_TXID) is None && TextTag::spec_from_code(TAG_VALU) is None,
        NestedTag::spec_from_code(TAG_TXID) is None && NestedTag::spec_from_code(TAG_VALU) is None,
        FloatTag::spec_from_code(TAG_TXID) is None && FloatTag::spec_from_code(TAG_VALU) is None,
{
    assert forall|t: IntTag| #[trigger] IntTag::spec_from_code(t.spec_code()) == Some(t) by {
        match t {
            IntTag::AlphaReference => {},
            IntTag::AlphaTestEnabled => {},
            IntTag::BlendEnabled => {},
            IntTag::DecalBlendDiffuse => {},
            IntTag::DecalBlendEmission => {},
            IntTag::DecalBlendNormal => {},
            IntTag::DecalBlendRoughness => {},
            IntTag::DecalBlendSpecular => {},
            IntTag::Enabled => {},
            IntTag::FogEnabled => {},
            IntTag::ZBias => {},
        }
    }
    assert forall|t: TextTag| #[trigger] TextTag::spec_from_code(t.spec_code()) == Some(t) by {
        match t {
            TextTag::BlendMode => {},
            TextTag::CullingMode => {},
            TextTag::Name => {},
            TextTag::Tags => {},
            TextTag::TilingU => {},
            TextTag::TilingV => {},
            TextTag::Type => {},
        }
    }
    assert forall|t: NestedTag| #[trigger] NestedTag::spec_from_code(t.spec_code()) == Some(t) by {
        match t {
            NestedTag::Binder => {},
            NestedTag::Color => {},
            NestedTag::Color4 => {},
            NestedTag::FloatValue => {},
            NestedTag::Instance => {},
            NestedTag::RenderState => {},
            NestedTag::Texture => {},
        }
    }
    assert forall|t: FloatTag| #[trigger] FloatTag::spec_from_code(t.spec_code()) == Some(t) by {
        match t {
            FloatTag::Opacity => {},
            FloatTag::ZOffset => {},
            FloatTag::SubsurfaceValue => {},
            FloatTag::SubsurfaceBlue => {},
            FloatTag::SubsurfaceGreen => {},
            FloatTag::SubsurfaceRed => {},
        }
    }
}

} // verus!
