//! Edge filters for a reverse-proxy data plane, with their behaviour stated
//! in contracts and proved.
//!
//! * [`patterns`]: the pattern engine and the redaction orchestrator. They
//!   find credit card numbers, Social Security Numbers, email addresses and
//!   US phone numbers in a response body and mask them.
//! * [`filter`]: the exchange filter, which decides for each HTTP exchange
//!   whether its response body is scanned, and when.
//! * [`config`]: the policy the filter works to.
//! * [`router`]: the smart router, which picks an upstream target for a
//!   request from rules on its headers and cookies.
//! * [`text`]: UTF-8 decoding and encoding, character classes, and small
//!   operations on texts.
//!
//! Nothing here touches the host of the plugins. The library is handed
//! plain values and answers with decisions; reading from the host and
//! carrying the decisions out is left to the caller.

pub mod config;
pub mod filter;
pub mod patterns;
pub mod router;
pub mod text;
