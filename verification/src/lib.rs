//! The decision core of a headless Wayland display: which output modes are offered, how
//! windows are sized and fitted, when the output changes between SDR and HDR, and how the
//! frame scaler walks its ring of output images.
//!
//! Every type here is made of plain values. The caller reads them off the compositor, the
//! GPU and the media pipeline, hands them in, and performs the effects that come back.

// Values.
pub mod formats;
pub mod geometry;
pub mod hdr;
pub mod listing;
pub mod logical;
pub mod output;
pub mod ui_scale;
pub mod video;
pub mod windows;

// The display.
pub mod blockers;
pub mod commit;
pub mod hdr_switch;
pub mod health;
pub mod modes;
pub mod pointer;
pub mod session;
pub mod startup;
pub mod state;
pub mod toplevels;

// The scaler.
pub mod caps;
pub mod scaler;
pub mod vulkanscale;
