//! Unified package search: fans a query out to several package managers,
//! groups what they find, and lets the user pick one package to install.
pub mod aggregate;
pub mod cargo;
pub mod dnf;
pub mod error;
pub mod flatpak;
pub mod keys;
pub mod render;
pub mod result;
pub mod selection;
pub mod text;
