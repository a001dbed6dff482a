//! Codecs for resource formats of the Glacier engine: the recursive
//! material-instance property tree (MATI) with the flag bitsets,
//! vocabularies, colours and reference tables that it is built from; the
//! flat material-entity override tables (MATT and MATB); Wwise events
//! (WWEV); and the JSON variant of ORES.

pub mod flags;
pub mod bytes;
pub mod refs;
pub mod tags;
pub mod error;
pub mod node;
pub mod encode;
pub mod colour;
pub mod vocab;
pub mod model;
pub mod mapper;
pub mod instance;
pub mod roundtrip;
pub mod wwev;
pub mod entity;
pub mod ores;
