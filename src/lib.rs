//! Calls into separately built plugins through one stable entry point.
//!
//! A call names its target as `"<Trait>::<Method>"` and carries its
//! arguments as bytes; each plugin routes the name to a method, decodes the
//! arguments, runs the method and encodes the result.
pub mod ident;
pub mod router;
pub mod registry;
pub mod codec;
pub mod api;
pub mod plugins;
