//! # RN2xx3
//!
//! A driver for the RN2483 and the RN2903 LoRaWAN modules, which speak a
//! line-based command protocol over a serial link.
//!
//! ## Usage
//!
//! The driver works on any byte channel that implements
//! [`transport::Transport`]. Create it for the model and frequency of the
//! module with [`rn2483_433`], [`rn2483_868`] or [`rn2903_915`]. After
//! attaching to a module whose state is unknown, call
//! `ensure_known_state()` first. Then read information from the module,
//! set the keys, `join()` the network and send data with `transmit_hex()`
//! or `transmit_slice()`.
//!
//! Responses live in a buffer inside the driver. A response that a command
//! hands out borrows the driver, and the next command overwrites it.
//!
//! ## What is proved
//!
//! The driver keeps a record of every call that it makes on the link, the
//! trace, which exists during verification only. The contract of each
//! command relates the trace before the command to the trace after it, and
//! the result to what the calls returned: which bytes went out, in which
//! order, up to which failure; which bytes were read; and what the reply
//! meant. In particular a command that refuses its arguments, or that finds
//! the module asleep, leaves the trace as it was.
//!
//! The shapes of traffic are defined in [`framing`], the meaning of the
//! replies beside the commands: [`join`], [`transmit`], [`resync`],
//! [`system`] and [`mac`].

pub mod decimal;
pub mod driver;
pub mod errors;
pub mod fields;
pub mod framing;
pub mod hex;
pub mod join;
pub mod mac;
pub mod rates;
pub mod resync;
pub mod system;
pub mod text;
pub mod transmit;
pub mod transport;
pub mod utils;

pub use driver::{rn2483_433, rn2483_868, rn2903_915, Driver, Freq433, Freq868, Freq915, Frequency};
pub use join::JoinMode;
pub use rates::{DataRateEuCn, DataRateUs};
pub use system::Model;
pub use transmit::{ConfirmationMode, Downlink};
