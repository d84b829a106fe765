//! Driver core for a LoRaWAN radio module that speaks a line-oriented
//! AT-command protocol over a byte-stream transport.
//!
//! The crate holds the protocol engine: a fixed-capacity receive buffer
//! that frames response units, a parser that turns response units into
//! typed [`Response`] values, an encoder that renders [`Command`] values
//! into wire bytes, and the [`Rak811Driver`] state machine that sequences
//! commands and matches responses. Transport and reset-line I/O stay
//! outside: a host loop performs the [`Step`] actions the state machine
//! requests and feeds incoming bytes back in.

use vstd::prelude::*;

pub mod buffer;
pub mod driver;
pub mod encoder;
pub mod hex;
pub mod parser;
pub mod types;
pub mod wire;

pub use buffer::Buffer;
pub use buffer::ParseError;
pub use driver::log_unexpected;
pub use driver::DriverModel;
pub use driver::OpState;
pub use driver::Rak811Driver;
pub use driver::Step;
pub use driver::StepModel;
pub use types::{
    AppEui, AppKey, AppsKey, Command, CommandModel, ConfigOption, ConnectMode, DevAddr, DevEui,
    EventCode, JoinMode, LoraConfig, LoraError, LoraMode, LoraRegion, NwksKey, Port, QoS, Response,
    ResponseModel, CMD_BUFFER_LEN, RECV_BUFFER_LEN,
};

verus! {

} // verus!
