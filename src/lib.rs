//! A small ICMP echo ("ping") library: argument validation, the per-request
//! session state machine, and the lines reported for each reply.

pub mod address;
pub mod args;
pub mod error;
pub mod packet;
pub mod run;
pub mod session;
pub mod text;

pub use address::Ipv4Address;
pub use args::{parse_arg, Arg, RequestsToSend, TransmissionInterval};
pub use error::Error;
pub use packet::{is_echo_reply, Inbound};
pub use session::{
    payload, Action, Event, Phase, Reply, Session, IDENTIFIER, REPLY_WINDOW_MICROS,
    REPLY_WINDOW_SECS,
};
pub use text::{parse_u16, push_decimal, split_fields};
