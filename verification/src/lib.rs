//! Client-side codec for the 48-byte time-synchronization packet header,
//! together with the four-timestamp offset and delay computation.

pub mod codec;
pub mod exchange;
pub mod ntp_message_protocol;
pub mod types;
