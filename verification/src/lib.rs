//! A client library for the Mealie recipe and meal-plan service.
use vstd::prelude::*;

pub mod bindings;
pub mod cli;
pub mod client;
pub mod config;
pub mod date_input;
pub mod error;
pub mod json;
pub mod meal_type;
pub mod output;
pub mod safety;
pub mod session;
pub mod status;
pub mod text;

pub use error::{AppError, ErrorCode};
pub use output::RunResult;
