//! Turns an astronomical point-source catalog into a radiometrically
//! weighted six-face cubemap and its derived outputs.
//!
//! The library holds the pipeline's decision and data logic: the shard
//! cache codec, shard text parsing, cubemap face selection and texel
//! addressing, cross-layout compositing, and output byte formats. Floating
//! point evaluation (trigonometry, flux, solid angles, tone mapping) and
//! all I/O stay with the surrounding program, which hands plain values in
//! and out.

pub mod faces;
pub mod hdr;
pub mod images;
pub mod ingest;
pub mod manifest;
pub mod names;
pub mod records;
pub mod rows;
