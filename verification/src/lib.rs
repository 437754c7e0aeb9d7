//! Byte-exact codec, in-place editor, and text renderer for the
//! length-prefixed, tag-discriminated binary file format that stores
//! geolocated ore/mineral sample records.

pub mod codec;
pub mod edit;
pub mod render;
pub mod sample;
pub mod wire;
