//! Requirement-specification and lowering core of a Python package manager.
//!
//! The crate turns textual dependency declarations (PEP 508 strings, project
//! manifests, workspace override tables) into a canonical, provenance-tagged
//! requirement model: parsing, marker evaluation, source lowering, extras
//! flattening and static-metadata extraction.

pub mod name;
pub mod text;
pub mod version;
pub mod marker;
pub mod requirement;
pub mod uv_requirement;
pub mod requirements_txt;
pub mod pyproject;
pub mod target;
pub mod settings;
pub mod display;
pub mod laws;
