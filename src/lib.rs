//! A function-calling agent core: detects call markers in model text,
//! resolves them against a handler registry and drives the continuation loop.

pub mod marker;
pub mod json;
pub mod registry;
pub mod message;
pub mod dispatch;
pub mod laws;
pub mod calculator;
pub mod driver;
