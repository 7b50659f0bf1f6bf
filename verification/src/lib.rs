//! The logic of a terminal colour converter: HEX codes to RGB, and RGB to CMYK
//! percentages through a pair of ICC profiles.
#![allow(unused_imports)]

pub mod app;
pub mod clipboard;
pub mod clipboard_laws;
pub mod hex;
pub mod hex_laws;
pub mod icc;
pub mod input;
pub mod key_laws;
pub mod laws;
pub mod reading;
pub mod style;
pub mod text;
pub mod view;
pub mod view_laws;
