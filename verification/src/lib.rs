//! Data-defined prototypes: reusable bundles of typed component data that can
//! be composed through named template inheritance, resolved with deterministic
//! override rules, and converted to and from a self-describing document tree.

pub mod component;
pub mod de;
pub mod document;
pub mod error;
pub mod prototype;
pub mod registry;
pub mod resolve;
pub mod roundtrip;
pub mod ser;
pub mod strutil;
pub mod template;
