//! Frame compositing and input-driven authentication logic for a
//! full-screen lock.

pub mod color;
pub mod frame;
pub mod keymap;
pub mod monitor;
pub mod session;
pub mod surface;
