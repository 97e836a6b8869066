//! The widgets: each constraint family owns its selector data and exposes
//! its per-row quotient contribution and its linearisation contribution.
pub mod arithmetic;
pub mod logic;
