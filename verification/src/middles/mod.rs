pub mod invoke;
pub mod serde;
