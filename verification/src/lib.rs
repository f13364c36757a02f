//! Headset status for the Sony INZONE H9 / H7 (first generation): the receiver's frame
//! format, what the tray believes about the headset, every word it says, and the small
//! file and registry formats it keeps. Everything here is computation on plain values; the
//! serial port, the registry, the shell and the drawing live with the program around it.

pub mod chars;
pub mod cli;
pub mod devices;
pub mod icon;
pub mod numfmt;
pub mod poller;
pub mod settings;
pub mod startup;
pub mod state;
pub mod text;
pub mod transport;
pub mod protocol;

