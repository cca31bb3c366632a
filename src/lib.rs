//! Finds the locally developed packages of a workspace from its lockfile, and
//! checks that every package manifest found on disk is among them.

pub mod document;
pub mod lockfile;
pub mod manifest;
pub mod workspace;
