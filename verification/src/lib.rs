//! Verified core of a Rime configuration installer: parsing of install
//! targets and package lists, recipe file selection and the install plan.
pub mod text;
pub mod target;
pub mod conf;
pub mod recipe;
pub mod install;
pub mod fetch;
pub mod frontend;

