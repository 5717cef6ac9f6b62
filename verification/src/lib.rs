//! A falling-block puzzle engine: a walled grid, seven piece shapes, an
//! all-or-nothing placement rule, line clearing and the key-driven session
//! that moves one live piece at a time.

pub mod controller;
pub mod model;
pub mod packet;
pub mod stat;
pub mod view;
