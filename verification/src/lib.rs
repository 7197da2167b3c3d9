//! A filesystem change-notification engine: the decoding of native change
//! records, the registry that owns the watched roots and their pending reads,
//! the handle through which callers queue requests, and the contract that
//! pipeline stages implement.

pub mod event;
pub mod text;
pub mod translator;
pub mod registry;
pub mod watcher;
pub mod processor;
