//! Storage modes: the per-type policy that controls where, and whether, a
//! record's data is written.

use vstd::prelude::*;
use crate::text::str_eq;

verus! {

/// Persistence mode for a record type. Exactly one mode applies per type,
/// fixed at registration.
#[derive(Debug, Clone, Copy, PartialEq, Eq, Structural)]
pub enum PersistMode {
    /// Development mode: a single shared local file, freely editable.
    Dev,
    /// Embed mode: values are baked in at build time and never written back.
    Embed,
    /// Dynamic mode: a per-type file under the user's configuration directory.
    Dynamic,
    /// Secure mode: a per-type file under a protected data directory,
    /// optionally obfuscated.
    Secure,
}

/// The mode named by a registration entry's mode string; anything
/// unrecognized means `Dev`.
pub open spec fn mode_of_name(s: Seq<char>) -> PersistMode {
    if s == "embed"@ {
        PersistMode::Embed
    } else if s == "dynamic"@ {
        PersistMode::Dynamic
    } else if s == "secure"@ {
        PersistMode::Secure
    } else {
        PersistMode::Dev
    }
}

/// Resolves a registration entry's mode string to a `PersistMode`.
pub fn mode_from_name(s: &str) -> (r: PersistMode)
    ensures
        r == mode_of_name(s@),
{
    if str_eq(s, "embed") {
        PersistMode::Embed
    } else if str_eq(s, "dynamic") {
        PersistMode::Dynamic
    } else if str_eq(s, "secure") {
        PersistMode::Secure
    } else {
        PersistMode::Dev
    }
}

} // verus!
