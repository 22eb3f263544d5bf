//! A declarative argument-mapping framework: a schema of entries (target
//! name, value kind, default policy) is filled from a caller's typed input,
//! ordered deterministically, resolved against default policies, and
//! serialized into the flat token sequence an external command expects.

pub mod argument;
pub mod descriptor;
pub mod entry;
pub mod name;
pub mod order;
pub mod tools;
