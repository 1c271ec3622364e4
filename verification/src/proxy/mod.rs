//! What a proxy learns of a remote object.

pub mod introspect;
