//! The work of the array commands: parsing their arguments and acting on an array

pub mod utils;
pub mod argrep;
pub mod arget;
pub mod arinfo;
pub mod arseek;
pub mod argetrange;
pub mod arlastitems;
pub mod armget;
pub mod arscan;
pub mod ardel;
pub mod ardelrange;
pub mod armset;
pub mod arset;
pub mod arinsert;
pub mod arring;
pub mod arop;
