//! Lane Lunacy's verified core: the deterministic, integer-valued decisions of
//! the lane-racing renderer and its world, UI and texture baking.
pub mod render;
pub mod shaders;
pub mod surface;
pub mod ui;
pub mod world;
