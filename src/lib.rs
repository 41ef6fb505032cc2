//! A reactive value: a container that holds a value and non-owning handles to
//! observers, and pushes the value to every observer still alive when it is
//! told to notify.

pub mod weak_ref;
pub mod model;
pub mod traits;
pub mod structs;
