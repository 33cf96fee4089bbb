//! Loading the icons of applications.

pub mod file;
pub mod native;
pub mod query;
