//! Core of Conway's Game of Life: a fixed-size grid of boolean cells with
//! bounded (non-wrapping) coordinate addressing, and the per-generation
//! transition rule. Rendering, windowing and input handling are left to the
//! surrounding application.

pub mod model;
