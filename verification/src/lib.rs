//! A falling-sand cellular automaton on a rectangular grid.
//!
//! A [`World`] owns a row-major array of [`Pixel`]s. Each call of
//! [`World::update`] advances the simulation by one tick: the cells are
//! visited in a freshly shuffled order, powders and liquids slide into empty
//! neighbours, and a fixed emitter pours new sand into the grid.
//! [`World::generate_texture`] flattens the grid into an RGBA byte buffer.
//!
//! The rules of movement are written down as specification functions in
//! [`rules`]; the executable code is proved to follow them, whatever the
//! random generator hands back.

pub mod geometry;
pub mod laws;
pub mod pixel;
pub mod random;
pub mod rules;
pub mod world;

pub use pixel::{Pixel, PixelBehaviour};
pub use world::{World, WorldView};
