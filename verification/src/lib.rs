//! Procedural RGB texture synthesis with machine-checked contracts, and two
//! small helpers beside it.
//!
//! The engine renders three kinds of images into flat, row-major RGB byte
//! buffers: grayscale gradient noise ([`noise_image::simplex_noise_rgb`]),
//! three-channel fractal noise ([`noise_image::colorful_fbm_noise`]) and
//! Voronoi colour partitions ([`voronoi::voronoi_rgb`]). Scalar samples are
//! carried as signed fixed-point numbers (see [`fixed`]) and seed positions
//! as unsigned fixed-point coordinates (see [`voronoi`]), so that every rule
//! of the engine is stated and proved over the integers. The noise field
//! itself is read by the caller, who hands the samples in.
//!
//! The helpers count the whole-word occurrences of a word in a text
//! ([`words`]) and name the files of downloaded images ([`download`]).
//!
//! What is taken on trust from other crates stands in three small modules:
//! `random`, [`matcher`] and [`web`]; two facts about `std` strings stand in
//! [`text`].

pub mod download;
pub mod fbm;
pub mod fixed;
pub mod matcher;
pub mod noise_image;
pub mod normalize;
mod random;
pub mod raster;
pub mod text;
pub mod voronoi;
pub mod web;
pub mod words;
