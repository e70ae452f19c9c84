//! Privileged load updates for Glutton parachains, and the text edits that
//! add the sudo pallet to a relay chain runtime.

pub mod account;
pub mod call;
pub mod driver;
pub mod endpoint;
pub mod manifest;
pub mod notice;
pub mod run;
pub mod runtime;
pub mod search;
pub mod text;
