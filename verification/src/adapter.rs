//! The record adapter capability: the contract a record type offers so the
//! engine can persist it. Host code implements it, by hand or through
//! generated boilerplate; the engine itself only consumes it.

use vstd::prelude::*;
use crate::store::PersistData;
use crate::mode::PersistMode;

verus! {

/// A type the engine can persist: it names itself, declares its storage
/// mode, optionally carries build-time embedded data, and converts between
/// a live instance and a value store.
pub trait Persistable {
    /// The name under which this type's data is stored.
    fn persist_name() -> &'static str;

    /// The storage mode, fixed at registration.
    fn persist_mode() -> (m: PersistMode) {
        PersistMode::Dev
    }

    /// Build-time embedded data, if any was captured.
    fn embedded_data() -> (r: Option<&'static str>) {
        None
    }

    /// The value store a live instance persists as.
    fn to_persist_data(&self) -> PersistData;

    /// Rebuilds the instance from a loaded store; fields the store does not
    /// carry keep their present values.
    fn load_from_persist_data(&mut self, data: &PersistData);
}

} // verus!
