//! A fixed-capacity tip-jar record: scalar metadata plus a bounded,
//! circular history of tips, laid out so that its worst-case serialized
//! size is computable before any data exists and is never exceeded by a
//! runtime mutation.

pub mod codec;
pub mod errors;
pub mod jar;
pub mod laws;
pub mod layout;
pub mod tip;
