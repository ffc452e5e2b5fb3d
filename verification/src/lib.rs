//! Turns a copied competitor name into the short code that a scoring sheet
//! expects, and decides what a clipboard watcher does with each text it sees.

pub mod command;
pub mod laws;
pub mod monitor;
pub mod name;
pub mod run;
