//! Shared utilities: field validation, text clean-up, pagination.

pub mod validation;
pub mod text;
pub mod pagination;
pub mod dtos;
