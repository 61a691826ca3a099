//! Client side of an absolute-pointer protocol: a device reports touches in
//! its own screen coordinates, and this library maps them onto the local
//! display and runs the wire protocol that carries them.

pub mod geometry;
pub mod mapping;
pub mod session;
pub mod setup;
pub mod wire;
