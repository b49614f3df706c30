//! Decoding and accumulation of the event stream of a Timepix3 detector.
pub mod config;
pub mod packet;
pub mod tdc;
pub mod spectrum;
pub mod spim;
pub mod coincidence;
