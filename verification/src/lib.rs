//! The decisions of a camera inventory: which credentials to try against a
//! discovered device, which of the addresses that the device advertises a
//! session may be bound to, and what its streams are reported as.
//!
//! Nothing here talks to a device. A caller performs the exchanges and
//! hands in what came back; every function says in its contract what it
//! then returns.
//!
//! - [`fanout`] bounds how many devices are worked on at once, and says what
//!   is tried against each.
//! - [`credentials`] holds the credential table.
//! - [`trial`] tries the candidates of one device in order.
//! - [`client`] binds a session from a device's list of services, and lists
//!   the streams of a session.
//! - [`directory`] judges the services that a device lists.
//! - [`media`] holds profiles, stream requests and stream records.
//! - [`address`] and [`text`] serve the others.

pub mod address;
pub mod client;
pub mod credentials;
pub mod directory;
pub mod fanout;
pub mod media;
pub mod text;
pub mod trial;
