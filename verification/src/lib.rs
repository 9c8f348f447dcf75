//! A persistence engine for typed records: a generic value store, a versioned
//! container file with two interchangeable text codecs, per-type storage
//! modes, a change-driven autosave policy, and a registration directory that
//! lets record types attach themselves to a running manager.

pub mod adapter;
pub mod codec;
pub mod errors;
pub mod file;
pub mod hooks;
pub mod jsonval;
pub mod manager;
pub mod mode;
pub mod plugin;
pub mod secure;
pub mod store;
pub mod text;
pub mod tree;
pub mod value;

pub use adapter::Persistable;
pub use errors::PersistError;
pub use errors::PersistResult;
pub use file::PersistFile;
pub use hooks::load_persisted;
pub use hooks::persist_system;
pub use manager::PersistManager;
pub use manager::PlatformDirs;
pub use manager::SavePlan;
pub use mode::PersistMode;
pub use plugin::build_manager;
pub use plugin::PersistPlugin;
pub use plugin::PersistRegistration;
pub use plugin::PersistRegistry;
pub use store::merge_over;
pub use store::PersistData;
pub use value::Datum;
