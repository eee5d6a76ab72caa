//! The terminal interface, without the terminal: what is on screen, what a key
//! does to it, and what is to be done outside on its account.

pub mod app;
pub mod appearance;
pub mod behaviour;
pub mod events;
pub mod keys;
pub mod laws;
pub mod model;
pub mod screen;
pub mod tasks;
