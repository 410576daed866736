//! Local-first support for the classic IKEA TRÅDFRI gateway.
//!
//! The crate separates the numeric gateway wire format (`protocol`), typed
//! resources (`model`), request construction (`command`) and the decisions of
//! discovery, the transport and resilient observation from the network I/O,
//! which the program around the library performs.

pub mod client;
pub mod command;
pub mod credentials;
pub mod discovery;
pub mod error;
pub mod json;
pub mod model;
pub mod observation;
pub mod protocol;
pub mod text;
pub mod time;
pub mod transport;

pub use client::{Client, ClientOptions, Gateway, ReconnectOptions};
pub use command::{Command, CommandError, Method};
pub use credentials::Credentials;
pub use error::{Error, Result};
pub use model::{
    AirPurifier, Blind, Device, DeviceInfo, DeviceKind, Group, Light, SignalRepeater, Socket,
};
