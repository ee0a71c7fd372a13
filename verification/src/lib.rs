//! The exact part of a phase-surface pipeline.
//!
//! A phase image of a flat target follows the surface
//! `z = (a x + b y + c) / (d x + e y + 1)`. A program that plots such an image
//! fits the surface, subtracts it and draws what is left as a coloured point
//! cloud. This library holds what such a program decides without arithmetic
//! on the measured values:
//!
//! - [`cloud`] builds the filtered point cloud from the phase grid and the
//!   quality grid, and [`extrema`] folds the least and greatest value;
//! - [`fit`] decides whether coefficients are taken as given or solved for,
//!   and what to make of the solver's outcome;
//! - [`depth`] orders the points for painter's-algorithm drawing;
//! - [`range`] resolves the axis ranges of the view;
//! - [`config`] and [`decimal`] read the textual options;
//! - [`color`] and [`script`] write what the plotting tool reads, and
//!   [`render`] judges how its run ended.
//!
//! Measured values cross the library boundary as IEEE-754 binary64 encodings
//! (`u64`), see [`sample`]. The library compares them exactly as the encoded
//! numbers compare and carries them through unchanged.

pub mod cloud;
pub mod color;
pub mod config;
pub mod decimal;
pub mod depth;
pub mod extrema;
pub mod fit;
pub mod grid;
pub mod range;
pub mod render;
pub mod sample;
pub mod script;
