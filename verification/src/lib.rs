//! A grid layout engine: it arranges a flat, row-major list of cells into a
//! table of columns and rows, computing one width per column, one height per
//! row, and an aligned box for every cell, together with the geometry of the
//! separator lines drawn between columns and rows.

pub mod builder;
pub mod cell;
pub mod laws;
pub mod px;
pub mod separators;
pub mod style;
pub mod table;
