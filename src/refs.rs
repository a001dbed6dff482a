//! Resource identifiers and the reference table that a resource keeps of
//! the resources it depends on.

use vstd::prelude::*;

verus! {

/// An opaque 64-bit identifier of a resource, derived from its content path.
#[derive(Clone, Copy, Debug, PartialEq, Eq, Hash, Structural)]
pub struct RuntimeID(pub u64);

/// How a resource holds on to one of its dependencies.
#[derive(Clone, Copy, Debug, PartialEq, Eq, Hash, Structural)]
pub enum ReferenceType {
    Normal,
    Weak,
}

/// The flags that a reference table keeps with each dependency.
#[derive(Clone, Copy, Debug, PartialEq, Eq, Hash, Structural)]
pub struct ReferenceFlags {
    pub reference_type: ReferenceType,
    pub acquired: bool,
    /// A bitmask of the languages that the dependency is used for (five bits).
    pub language_code: u8,
}

/// One entry of a reference table.
#[derive(Clone, Copy, Debug, PartialEq, Eq, Hash, Structural)]
pub struct ResourceReference {
    pub resource: RuntimeID,
    pub flags: ReferenceFlags,
}

/// Unacquired flags, for no language, of the given type.
pub open spec fn spec_default_flags(t: ReferenceType) -> ReferenceFlags {
    ReferenceFlags { reference_type: t, acquired: false, language_code: 0 }
}

/// A reference with the flags that `spec_default_flags` describes.
pub fn default_reference(resource: RuntimeID, t: ReferenceType) -> (r: ResourceReference)
    ensures
        r == (ResourceReference { resource, flags: spec_default_flags(t) }),
{
    ResourceReference { resource, flags: ReferenceFlags { reference_type: t, acquired: false, language_code: 0 } }
}

/// The index that stands for "no reference" where a table index is expected.
pub const NO_REFERENCE: u32 = 0xFFFF_FFFF;

/// The flags given to a dependency that the property tree refers to: a normal,
/// unacquired reference used by every language.
pub open spec fn spec_tree_reference_flags() -> ReferenceFlags {
    ReferenceFlags { reference_type: ReferenceType::Normal, acquired: false, language_code: 0x1f }
}

/// The flags that `spec_tree_reference_flags` describes.
pub fn tree_reference_flags() -> (r: ReferenceFlags)
    ensures
        r == spec_tree_reference_flags(),
{
    ReferenceFlags { reference_type: ReferenceType::Normal, acquired: false, language_code: 0x1f }
}

/// The identifier that the table entry at `index` names, if `index` is not
/// the sentinel. An index past the end of the table is an error, reported as
/// `None` in the outer option.
pub open spec fn spec_lookup(table: Seq<ResourceReference>, index: u32) -> Option<Option<RuntimeID>> {
    if index == NO_REFERENCE {
        Some(None)
    } else if (index as int) < table.len() {
        Some(Some(table[index as int].resource))
    } else {
        None
    }
}

/// Resolves a table index: the sentinel gives `Some(None)`, an index into
/// the table gives the identifier there, and any other index gives `None`.
pub fn lookup_reference(table: &[ResourceReference], index: u32) -> (r: Option<Option<RuntimeID>>)
    ensures
        r == spec_lookup(table@, index),
{
    if index == NO_REFERENCE {
        Some(None)
    } else if (index as usize) < table.len() {
        Some(Some(table[index as usize].resource))
    } else {
        None
    }
}

} // verus!
