//! Identification of the running Linux distribution.
//!
//! The library has two layers. The identity model ([`DistroId`]) is a closed
//! taxonomy of known distribution families with a catch-all variant, together
//! with string conversion in both directions and a curated similarity table.
//! The profile layer ([`Distro`]) is built by parsing the text of an
//! `os-release` style file; the file itself is read by the host application,
//! which hands the text to [`parse_release`].

pub mod identity;
pub mod profile;
pub mod text;

pub use identity::DistroId;
pub use identity::IdView;
pub use profile::Distro;
pub use profile::parse_release;
