//! Verified decision core of a SIP and RTP capture tool.

pub mod bytes;
pub mod channel;
pub mod clock;
pub mod net;
pub mod number;
pub mod packet;
pub mod parallel;
pub mod percent;
pub mod pipeline;
pub mod plugin;
pub mod privilege;
pub mod process_isolation;
pub mod provenance;
pub mod rate_limit;
pub mod relay;
pub mod sort;
pub mod text;
pub mod transmit;
pub mod words;
