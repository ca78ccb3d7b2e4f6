//! An interactive Game of Life pipeline: a cursor mapper, a per-frame
//! uniform packer, a double-buffered cell grid stepped by the Life rule with
//! a circular brush, and the display-side viewport and sampling logic.
pub mod cursor;
pub mod display;
pub mod frame;
pub mod life;
pub mod material;
pub mod sim;
