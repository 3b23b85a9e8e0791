//! herdr-npm: the npm/pnpm scripts column for Herdr, as a verified library.
//!
//! The domain holds the catalogue model, package-manager detection, fuzzy
//! search, sidebar decisions and command quoting. The application layer turns
//! the plugin's use cases into step functions that the program drives.

pub mod adapters;
pub mod application;
pub mod domain;
