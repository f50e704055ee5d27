//! Derivation engine for record types: classifies each field of a record
//! descriptor as plain, optional, or repeated, infers which generic
//! parameters a record's fields actually use, and synthesizes abstract code
//! fragments for a companion builder type and a structured debug dump.
pub mod builder_gen;
pub mod classify;
pub mod command;
pub mod debug_gen;
pub mod descriptor;
pub mod generics;
pub mod runtime;
