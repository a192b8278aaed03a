//! The appearance of a table: the two separator colors.

use vstd::prelude::*;

verus! {

/// A color, as the host's renderer understands it.
#[derive(Clone, Copy, PartialEq, Eq, Structural, Debug)]
pub struct Rgba {
    pub r: u8,
    pub g: u8,
    pub b: u8,
    pub a: u8,
}

/// The appearance of a table.
#[derive(Clone, Copy, PartialEq, Eq, Structural, Debug)]
pub struct Style {
    /// The color of the vertical line separator between columns.
    pub separator_x: Rgba,
    /// The color of the horizontal line separator between rows.
    pub separator_y: Rgba,
}

/// The theme catalog of a table: how a theme turns a style class into the
/// two separator colors.
pub trait Catalog {
    /// The item class of the catalog.
    type Class;

    /// The default class produced by the catalog.
    fn default_class() -> Self::Class;

    /// The style of the given class.
    fn style(&self, class: &Self::Class) -> Style;
}

} // verus!
