//! A marketplace for quantity-bearing assets.
//!
//! A seller lists a quantity of an asset at a price per unit; the marketplace takes the
//! quantity into custody; a buyer pays the price of the whole lot in the payment asset and
//! receives the lot. Every operation either goes through as a whole or changes nothing.
//!
//! The operations are those of [`service::Marketplace`]. What they do is stated over the
//! state machine in [`model`], and [`laws`] holds what follows for all sequences of calls.

pub mod auth;
pub mod config;
pub mod custody;
pub mod error;
pub mod events;
pub mod identity;
pub mod laws;
pub mod ledger;
pub mod model;
pub mod registry;
pub mod request;
pub mod service;

pub use crate::auth::{Authorization, AuthorizationContext, Invocation};
pub use crate::config::Config;
pub use crate::error::{Error, ErrorKind};
pub use crate::events::{Event, EventLog, Operation};
pub use crate::identity::{AssetRef, Identity};
pub use crate::ledger::Ledger;
pub use crate::registry::Listing;
pub use crate::request::{Reply, Request};
pub use crate::service::{Host, Marketplace};
