//! Fan control for Linux hosts, without the host: every decision of the
//! daemon and every rule of its client, as functions from plain values to
//! plain values with their contracts.
//!
//! - [`curve`]: fan curves and their interpolation.
//! - [`config`]: the configuration and its table of fan assignments.
//! - [`hwmon`]: what the files of fans and sensors mean, and which files to
//!   write to control a fan.
//! - [`protocol`]: the requests and responses, and how a message is framed.
//! - [`daemon`]: request handling, reconciliation, the scheduler tick and
//!   the life of a connection.
//! - [`client`]: the state of the terminal client.
//! - [`text`]: numerals, integer parsing, trimming and ordering of strings.
//!
//! Nothing here touches a file, a socket or a clock. The caller reads what
//! is to be read, hands it over, and carries out what comes back.

pub mod client;
pub mod config;
pub mod curve;
pub mod daemon;
pub mod hwmon;
pub mod protocol;
pub mod text;
