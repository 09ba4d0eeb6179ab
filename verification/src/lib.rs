//! The decisions of a minimal bar for Windows: what a message asks for, what is
//! drawn where, which apps the search lists, and when the bar hides.

pub mod apps;
pub mod bar;
pub mod behaviour;
pub mod filter;
pub mod fullscreen;
pub mod geometry;
pub mod komorebi;
pub mod labels;
pub mod laws;
pub mod paint;
pub mod search;
pub mod text;
pub mod usage;
pub mod utf16;
pub mod volume;
pub mod win32;
