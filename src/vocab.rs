//! The closed vocabularies that material instances name by string.

use vstd::prelude::*;
use crate::error::{MaterialError, MaterialErrorView};
use vstd::utf8::{encode_utf8, is_ascii_chars_encode_utf8};

verus! {

/// Whether `s` holds the characters of `lit`.
fn text_is(s: &String, lit: &str) -> (r: bool)
    ensures
        r == (s@ == lit@),
{
    let o = lit.to_owned();
    *s == o
}

/// The shader family of a material.
#[derive(Clone, Copy, Debug, PartialEq, Eq, Hash, Structural)]
pub enum MaterialType {
    /// `Standard`
    Standard,
    /// `StandardLinked`
    StandardLinked,
    /// `StandardWeighted`
    StandardWeighted,
    /// `SpriteParticle_AO`
    SpriteParticleAO,
    /// `SpriteParticleVelocity`
    SpriteParticleVelocity,
}

impl MaterialType {
    /// The name by which the format spells this value.
    pub open spec fn spec_name(self) -> Seq<char> {
        match self {
            MaterialType::Standard => "Standard"@,
            MaterialType::StandardLinked => "StandardLinked"@,
            MaterialType::StandardWeighted => "StandardWeighted"@,
            MaterialType::SpriteParticleAO => "SpriteParticle_AO"@,
            MaterialType::SpriteParticleVelocity => "SpriteParticleVelocity"@,
        }
    }

    /// The value whose name is `s`, if any.
    pub open spec fn spec_from_name(s: Seq<char>) -> Option<Self> {
        if s == "Standard"@ {
            Some(MaterialType::Standard)
        } else if s == "StandardLinked"@ {
            Some(MaterialType::StandardLinked)
        } else if s == "StandardWeighted"@ {
            Some(MaterialType::StandardWeighted)
        } else if s == "SpriteParticle_AO"@ {
            Some(MaterialType::SpriteParticleAO)
        } else if s == "SpriteParticleVelocity"@ {
            Some(MaterialType::SpriteParticleVelocity)
        } else {
            None
        }
    }

    /// The name by which the format spells this value.
    pub fn as_str(&self) -> (r: &'static str)
        ensures
            r@ == self.spec_name(),
    {
        match self {
            MaterialType::Standard => "Standard",
            MaterialType::StandardLinked => "StandardLinked",
            MaterialType::StandardWeighted => "StandardWeighted",
            MaterialType::SpriteParticleAO => "SpriteParticle_AO",
            MaterialType::SpriteParticleVelocity => "SpriteParticleVelocity",
        }
    }

    /// The name by which the format spells this value, as a new string.
    pub fn to_name(&self) -> (r: String)
        ensures
            r@ == self.spec_name(),
    {
        self.as_str().to_owned()
    }

    /// Reads a value from its name; any other string is an `InvalidMaterialType` error
    /// that holds it.
    pub fn from_name(s: &String) -> (r: Result<Self, MaterialError>)
        ensures
            r matches Ok(v) ==> Self::spec_from_name(s@) == Some(v),
            r matches Err(e) ==> Self::spec_from_name(s@) is None && e@ == MaterialErrorView::InvalidMaterialType(s@),
    {
        if text_is(s, "Standard") {
            Ok(MaterialType::Standard)
        } else if text_is(s, "StandardLinked") {
            Ok(MaterialType::StandardLinked)
        } else if text_is(s, "StandardWeighted") {
            Ok(MaterialType::StandardWeighted)
        } else if text_is(s, "SpriteParticle_AO") {
            Ok(MaterialType::SpriteParticleAO)
        } else if text_is(s, "SpriteParticleVelocity") {
            Ok(MaterialType::SpriteParticleVelocity)
        } else {
            Err(MaterialError::InvalidMaterialType(s.clone()))
        }
    }
}

/// Every `MaterialType` is read back from its own name.
pub proof fn lemma_material_type_name_round_trip(v: MaterialType)
    ensures
        MaterialType::spec_from_name(v.spec_name()) == Some(v),
{
    reveal_strlit("Standard");
    reveal_strlit("StandardLinked");
    reveal_strlit("StandardWeighted");
    reveal_strlit("SpriteParticle_AO");
    reveal_strlit("SpriteParticleVelocity");
    assert("StandardLinked"@.len() != "Standard"@.len());
    assert("StandardWeighted"@.len() != "Standard"@.len());
    assert("StandardWeighted"@.len() != "StandardLinked"@.len());
    assert("SpriteParticle_AO"@.len() != "Standard"@.len());
    assert("SpriteParticle_AO"@.len() != "StandardLinked"@.len());
    assert("SpriteParticle_AO"@.len() != "StandardWeighted"@.len());
    assert("SpriteParticleVelocity"@.len() != "Standard"@.len());
    assert("SpriteParticleVelocity"@.len() != "StandardLinked"@.len());
    assert("SpriteParticleVelocity"@.len() != "StandardWeighted"@.len());
    assert("SpriteParticleVelocity"@.len() != "SpriteParticle_AO"@.len());
}

/// Which faces of a surface are drawn.
#[derive(Clone, Copy, Debug, PartialEq, Eq, Hash, Structural)]
pub enum CullingMode {
    /// `DontCare`
    DontCare,
    /// `OneSided`
    OneSided,
    /// `TwoSided`
    TwoSided,
}

impl CullingMode {
    /// The name by which the format spells this value.
    pub open spec fn spec_name(self) -> Seq<char> {
        match self {
            CullingMode::DontCare => "DontCare"@,
            CullingMode::OneSided => "OneSided"@,
            CullingMode::TwoSided => "TwoSided"@,
        }
    }

    /// The value whose name is `s`, if any.
    pub open spec fn spec_from_name(s: Seq<char>) -> Option<Self> {
        if s == "DontCare"@ {
            Some(CullingMode::DontCare)
        } else if s == "OneSided"@ {
            Some(CullingMode::OneSided)
        } else if s == "TwoSided"@ {
            Some(CullingMode::TwoSided)
        } else {
            None
        }
    }

    /// The name by which the format spells this value.
    pub fn as_str(&self) -> (r: &'static str)
        ensures
            r@ == self.spec_name(),
    {
        match self {
            CullingMode::DontCare => "DontCare",
            CullingMode::OneSided => "OneSided",
            CullingMode::TwoSided => "TwoSided",
        }
    }

    /// The name by which the format spells this value, as a new string.
    pub fn to_name(&self) -> (r: String)
        ensures
            r@ == self.spec_name(),
    {
        self.as_str().to_owned()
    }

    /// Reads a value from its name; any other string is an `InvalidCullingMode` error
    /// that holds it.
    pub fn from_name(s: &String) -> (r: Result<Self, MaterialError>)
        ensures
            r matches Ok(v) ==> Self::spec_from_name(s@) == Some(v),
            r matches Err(e) ==> Self::spec_from_name(s@) is None && e@ == MaterialErrorView::InvalidCullingMode(s@),
    {
        if text_is(s, "DontCare") {
            Ok(CullingMode::DontCare)
        } else if text_is(s, "OneSided") {
            Ok(CullingMode::OneSided)
        } else if text_is(s, "TwoSided") {
            Ok(CullingMode::TwoSided)
        } else {
            Err(MaterialError::InvalidCullingMode(s.clone()))
        }
    }
}

/// Every `CullingMode` is read back from its own name.
pub proof fn lemma_culling_mode_name_round_trip(v: CullingMode)
    ensures
        CullingMode::spec_from_name(v.spec_name()) == Some(v),
{
    reveal_strlit("DontCare");
    reveal_strlit("OneSided");
    reveal_strlit("TwoSided");
    assert("OneSided"@[0] != "DontCare"@[0]);
    assert("TwoSided"@[0] != "DontCare"@[0]);
    assert("TwoSided"@[0] != "OneSided"@[0]);
}

/// How a surface is blended with what is behind it.
#[derive(Clone, Copy, Debug, PartialEq, Eq, Hash, Structural)]
pub enum BlendMode {
    /// `ADD`
    Add,
    /// `SUB`
    Sub,
    /// `TRANS`
    Trans,
    /// `TRANS_ON_OPAQUE`
    TransOnOpaque,
    /// `OPAQUE`
    Opaque,
    /// `TRANS_PREMULTIPLIED_ALPHA`
    TransPremultipliedAlpha,
}

impl BlendMode {
    /// The name by which the format spells this value.
    pub open spec fn spec_name(self) -> Seq<char> {
        match self {
            BlendMode::Add => "ADD"@,
            BlendMode::Sub => "SUB"@,
            BlendMode::Trans => "TRANS"@,
            BlendMode::TransOnOpaque => "TRANS_ON_OPAQUE"@,
            BlendMode::Opaque => "OPAQUE"@,
            BlendMode::TransPremultipliedAlpha => "TRANS_PREMULTIPLIED_ALPHA"@,
        }
    }

    /// The value whose name is `s`, if any.
    pub open spec fn spec_from_name(s: Seq<char>) -> Option<Self> {
        if s == "ADD"@ {
            Some(BlendMode::Add)
        } else if s == "SUB"@ {
            Some(BlendMode::Sub)
        } else if s == "TRANS"@ {
            Some(BlendMode::Trans)
        } else if s == "TRANS_ON_OPAQUE"@ {
            Some(BlendMode::TransOnOpaque)
        } else if s == "OPAQUE"@ {
            Some(BlendMode::Opaque)
        } else if s == "TRANS_PREMULTIPLIED_ALPHA"@ {
            Some(BlendMode::TransPremultipliedAlpha)
        } else {
            None
        }
    }

    /// The name by which the format spells this value.
    pub fn as_str(&self) -> (r: &'static str)
        ensures
            r@ == self.spec_name(),
    {
        match self {
            BlendMode::Add => "ADD",
            BlendMode::Sub => "SUB",
            BlendMode::Trans => "TRANS",
            BlendMode::TransOnOpaque => "TRANS_ON_OPAQUE",
            BlendMode::Opaque => "OPAQUE",
            BlendMode::TransPremultipliedAlpha => "TRANS_PREMULTIPLIED_ALPHA",
        }
    }

    /// The name by which the format spells this value, as a new string.
    pub fn to_name(&self) -> (r: String)
        ensures
            r@ == self.spec_name(),
    {
        self.as_str().to_owned()
    }

    /// Reads a value from its name; any other string is an `InvalidBlendMode` error
    /// that holds it.
    pub fn from_name(s: &String) -> (r: Result<Self, MaterialError>)
        ensures
            r matches Ok(v) ==> Self::spec_from_name(s@) == Some(v),
            r matches Err(e) ==> Self::spec_from_name(s@) is None && e@ == MaterialErrorView::InvalidBlendMode(s@),
    {
        if text_is(s, "ADD") {
            Ok(BlendMode::Add)
        } else if text_is(s, "SUB") {
            Ok(BlendMode::Sub)
        } else if text_is(s, "TRANS") {
            Ok(BlendMode::Trans)
        } else if text_is(s, "TRANS_ON_OPAQUE") {
            Ok(BlendMode::TransOnOpaque)
        } else if text_is(s, "OPAQUE") {
            Ok(BlendMode::Opaque)
        } else if text_is(s, "TRANS_PREMULTIPLIED_ALPHA") {
            Ok(BlendMode::TransPremultipliedAlpha)
        } else {
            Err(MaterialError::InvalidBlendMode(s.clone()))
        }
    }
}

/// Every `BlendMode` is read back from its own name.
pub proof fn lemma_blend_mode_name_round_trip(v: BlendMode)
    ensures
        BlendMode::spec_from_name(v.spec_name()) == Some(v),
{
    reveal_strlit("ADD");
    reveal_strlit("SUB");
    reveal_strlit("TRANS");
    reveal_strlit("TRANS_ON_OPAQUE");
    reveal_strlit("OPAQUE");
    reveal_strlit("TRANS_PREMULTIPLIED_ALPHA");
    assert("SUB"@[0] != "ADD"@[0]);
    assert("TRANS"@.len() != "ADD"@.len());
    assert("TRANS"@.len() != "SUB"@.len());
    assert("TRANS_ON_OPAQUE"@.len() != "ADD"@.len());
    assert("TRANS_ON_OPAQUE"@.len() != "SUB"@.len());
    assert("TRANS_ON_OPAQUE"@.len() != "TRANS"@.len());
    assert("OPAQUE"@.len() != "ADD"@.len());
    assert("OPAQUE"@.len() != "SUB"@.len());
    assert("OPAQUE"@.len() != "TRANS"@.len());
    assert("OPAQUE"@.len() != "TRANS_ON_OPAQUE"@.len());
    assert("TRANS_PREMULTIPLIED_ALPHA"@.len() != "ADD"@.len());
    assert("TRANS_PREMULTIPLIED_ALPHA"@.len() != "SUB"@.len());
    assert("TRANS_PREMULTIPLIED_ALPHA"@.len() != "TRANS"@.len());
    assert("TRANS_PREMULTIPLIED_ALPHA"@.len() != "TRANS_ON_OPAQUE"@.len());
    assert("TRANS_PREMULTIPLIED_ALPHA"@.len() != "OPAQUE"@.len());
}

/// The UTF-8 bytes of a material type's name hold no zero byte.
pub proof fn lemma_material_type_name_bytes(t: MaterialType)
    ensures
        forall|j: int| 0 <= j < encode_utf8(t.spec_name()).len() ==> #[trigger] encode_utf8(t.spec_name())[j] != 0,
{
    reveal_strlit("Standard");
    reveal_strlit("StandardLinked");
    reveal_strlit("StandardWeighted");
    reveal_strlit("SpriteParticle_AO");
    reveal_strlit("SpriteParticleVelocity");
    let s = t.spec_name();
    assert(forall|i: int| 0 <= i < s.len() ==> '\u{1}' <= #[trigger] s[i] <= '\u{7f}');
    is_ascii_chars_encode_utf8(s);
}

} // verus!
