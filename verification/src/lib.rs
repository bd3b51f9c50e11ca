//! Client-side core of the WebDriver wire protocol: capability documents,
//! the dual-dialect capability negotiation envelope, proxy and policy value
//! types, and the bookkeeping half of the HTTP transport (address handling,
//! timeout state, response classification).

pub mod capabilities;
pub mod error;
pub mod proxy;
pub mod transport;
pub mod value;
