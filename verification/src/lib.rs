//! Verified core of the EV prototype control center: the driving controls,
//! the operator session, the camera and map views and the serial port choice.

pub mod text;
pub mod controls;
pub mod logbook;
pub mod keys;
pub mod vehicle;
pub mod session;
pub mod camera;
pub mod camera_view;
pub mod map_canvas;
pub mod map_tiles;
pub mod ports;
pub mod console;
