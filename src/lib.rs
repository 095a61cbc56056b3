//! Header-line parsing for SIP messages: the header name, a value grammar chosen
//! by that name, comma-repeated values and their `;`-parameters, all as views
//! into the caller's buffer.

pub mod bnf;
pub mod error;
pub mod value;
pub mod grammar;
pub mod rfc;
pub mod params;
pub mod header;
pub mod laws;
