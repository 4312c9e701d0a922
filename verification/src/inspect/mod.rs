//! The library's core: loader detection, metadata, dependencies and class files.

pub mod dep;
pub mod archive;
pub mod classfile;
pub mod detect_mod_type;
pub mod grouping;
pub mod identify;
pub mod jar;
pub mod json;
pub mod loaders;
pub mod metadata;
pub mod reading;
pub mod registry;
