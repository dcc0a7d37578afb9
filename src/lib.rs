//! Layered debug images of a room: terrain and objects, a path overlay and
//! an overlay of the room's regions, recorded as ordered drawing layers.
pub mod canvas;
pub mod color;
pub mod path;
pub mod regions;
pub mod room;
