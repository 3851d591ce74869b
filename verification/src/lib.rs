//! OmaCal's calendar rules: who may answer or edit an event, how a guest list
//! is rebuilt for a write, which Google event a write targets and how an
//! edit's times are carried onto it, how dates are read in a calendar's
//! zone, what invitations announce, and the bookkeeping around credentials,
//! syncing, exporting and logging.

pub mod logging;
pub mod text;
pub mod guests;
pub mod civil;
pub mod zone;
pub mod events;
pub mod credentials;
pub mod sync;
pub mod display_tz;
pub mod config;
pub mod paths;
pub mod clock;
pub mod invites;
pub mod ipc;
pub mod export;
pub mod writes;
pub mod edits;
pub mod views;
pub mod resolve;
