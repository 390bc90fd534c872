//! Tools for exposing generic Rust values across a C boundary: opaque
//! handles over type-erased values, and the planning of dispatch functions
//! that recover the concrete instantiation held by a handle.
pub mod dispatch;
pub mod handle;
pub mod product;
pub mod signature;
pub mod template;
pub mod types;

pub use types::DType;
pub use types::DTypeIdentifier;
