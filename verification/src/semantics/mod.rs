//! Types as the compiler's back end sees them.

pub mod copy;
pub mod types;

pub use self::types::Type;
