//! Verified core of a player for animated GIFs in terminals that speak the
//! kitty graphics protocol: protocol command construction, cache layout and
//! keys, frame timing and scaling decisions, and terminal capability checks.

pub mod bytes;
pub mod numfmt;
pub mod animation;
pub mod kitty;
pub mod ids;
pub mod paths;
pub mod cache;
pub mod terminal;
