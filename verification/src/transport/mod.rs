//! Bookkeeping of the stream transports.

pub mod addr;
pub mod pool;
pub mod protect;
pub mod stream;
