//! The errors of the material codecs.

use vstd::prelude::*;
use crate::node::{IntermediateMaterialProperty, NodeView};

verus! {

/// Why a material could not be decoded or encoded.
#[derive(Debug, PartialEq)]
pub enum MaterialError {
    /// A read ran past the end of the buffer.
    Truncated,
    /// A length or an offset does not fit in the 32-bit field that holds it.
    InvalidNumber,
    /// A string is not valid UTF-8.
    InvalidString,
    /// A reference-table index is neither in the table nor the sentinel.
    InvalidDependency(usize),
    /// More MATT entries than MATB names.
    EntryCountMismatch,
    /// A node's kind code is none of the four kinds, or a MATT entry's type
    /// byte none of the seven types.
    UnrecognisedEntryType(u32),
    /// A node's tag code (first field) is not in the table of tags.
    UnrecognisedTag(u32),
    /// A known tag (first field) stored with a kind code (second field) or a
    /// shape other than its own.
    IncorrectType(u32, u32),
    /// The root of the property tree is not an instance node.
    InstanceNotTopLevel,
    /// A node lacks a child with the tag (its code) that it needs.
    RequiredPropertyNotFound(u32),
    /// A node holds a child that does not belong at its level.
    PropertyAtWrongLevel(IntermediateMaterialProperty),
    /// The value of the colour property with this name is not a float vector
    /// of three (or, for a four-channel colour, four) channels.
    InvalidColor(String),
    /// Not the name of a material type.
    InvalidMaterialType(String),
    /// Not the name of a culling mode.
    InvalidCullingMode(String),
    /// Not the name of a blend mode.
    InvalidBlendMode(String),
    /// A float vector with other than two, three or four elements.
    InvalidVector,
    /// A colour string whose channels are not pairs of hexadecimal digits.
    InvalidHex,
    /// The property tree nests deeper than the decoder follows.
    NestingTooDeep,
}

/// The mathematical value of an error: strings as their characters, nodes
/// as their views, and every other error as it is.
pub enum MaterialErrorView {
    Other(MaterialError),
    PropertyAtWrongLevel(NodeView),
    InvalidColor(Seq<char>),
    InvalidMaterialType(Seq<char>),
    InvalidCullingMode(Seq<char>),
    InvalidBlendMode(Seq<char>),
}

impl View for MaterialError {
    type V = MaterialErrorView;

    open spec fn view(&self) -> MaterialErrorView {
        match self {
            MaterialError::PropertyAtWrongLevel(p) => MaterialErrorView::PropertyAtWrongLevel(p@),
            MaterialError::InvalidColor(s) => MaterialErrorView::InvalidColor(s@),
            MaterialError::InvalidMaterialType(s) => MaterialErrorView::InvalidMaterialType(s@),
            MaterialError::InvalidCullingMode(s) => MaterialErrorView::InvalidCullingMode(s@),
            MaterialError::InvalidBlendMode(s) => MaterialErrorView::InvalidBlendMode(s@),
            _ => MaterialErrorView::Other(*self),
        }
    }
}

} // verus!
