//! PrintLTools: a launcher for small tools around printing.
//!
//! The page counter adds up the pages of the files in a folder, the PDF joiner
//! makes one file of several, and the eject tool frees a drive of the processes
//! that hold it and has it ejected. This library holds what the launcher and its
//! tools decide and compute. Files, processes, windows and the tray are handled by
//! the program around it, which hands in what it found and does what it is told.

pub mod app;
pub mod bytes;
pub mod commands;
pub mod laws;
pub mod page_counter;
pub mod paths;
pub mod pdf;
pub mod registry;
pub mod results;
pub mod text;
pub mod tray;
pub mod usb;
pub mod wide;
pub mod window_control;
