//! The decisions of a round touch knob: what its screens say, how its menus are laid out, how
//! its card, radio and companion are spoken to. Everything here computes; the hardware is
//! driven by the program around it.

use vstd::prelude::*;

pub mod backlight;
pub mod bands;
pub mod cardpins;
pub mod cardread;
pub mod cardwrite;
pub mod cloud;
pub mod cover;
pub mod device;
pub mod dial;
pub mod digits;
pub mod faces;
pub mod fatcheck;
pub mod frames;
pub mod link;
pub mod memory;
pub mod menu;
pub mod motor;
pub mod overview;
pub mod pictures;
pub mod pixels;
pub mod player;
pub mod plugins;
pub mod qr;
pub mod quadrature;
pub mod radio;
pub mod reach;
pub mod record;
pub mod remote;
pub mod scene;
pub mod screens;
pub mod slots;
pub mod storage;
pub mod text;
pub mod tone;
pub mod upload;
pub mod wiring;

verus! {

} // verus!
