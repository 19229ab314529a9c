//! Parameters of an HPU.
pub mod hpu;
pub mod name;

pub use name::ParamsName;
