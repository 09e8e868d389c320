//! The core of a daemon that records the diagnostic messages of a phone's
//! modem and looks in them for signs of a rogue base station: the codec of
//! the modem's diagnostic protocol, the decisions of the recording
//! pipeline and of the control surface, and the frames of the status
//! display. Nothing here reads a device, writes a file or waits; that is
//! left to the program around it.

pub mod config;
pub mod container;
pub mod control;
pub mod display;
pub mod error;
pub mod font;
pub mod framebuffer;
pub mod layers;
pub mod logs;
pub mod lte;
pub mod message;
pub mod pictures;
pub mod pipeline;
pub mod request;
pub mod response;
pub mod status;
pub mod status_text;
pub mod timestamp;
pub mod ui;
pub mod wire;
