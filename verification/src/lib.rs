//! A retained hierarchy of rectangular character surfaces ("windows"), each
//! backed by a scrollable virtual grid of cells, composited bottom-up into a
//! root surface and finally turned into a coalesced stream of terminal
//! commands.

pub mod buffer;
pub mod cell;
pub mod driver;
pub mod elements;
pub mod events;
pub mod input;
pub mod rect;
pub mod rectangle;
pub mod socket;
pub mod text;
pub mod window;
