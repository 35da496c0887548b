//! Playback logic for a real-time 2D field animator: the MXFR wire format,
//! normalization ranges over IEEE-754 bit patterns, display-mode cycling and
//! the playback state that the window loop drives.

pub mod colormap;
pub mod interp;
pub mod mxfr;
pub mod names;
pub mod norm;
pub mod playback;
