//! Decision logic of a small gateway that converts uploaded geospatial files.
//!
//! An upload is classified as a single file or a Shapefile bundle, bundle
//! components are staged under one shared random stem, an output format is
//! selected, the arguments of the converter are built, and the converter's
//! outcome is turned into a response followed by the removal of staged files.
//! Every function here is a function on plain values; reading the request,
//! running the converter and touching the file system are left to the caller.

pub mod converter;
pub mod format;
pub mod handler;
pub mod names;
pub mod staging;
pub mod upload;
