pub mod env;
pub mod error;
pub mod outcome;
pub mod overlay;
pub mod overrides;
pub mod types;
