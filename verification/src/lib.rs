//! Invoice generator core: a typed invoice data model with fixed-point
//! amounts, a loader for the declarative configuration format, a pure
//! renderer producing typesetting source, and the day-stepping decision
//! logic of the exchange-rate fetcher.

pub mod date;
pub mod fetch;
pub mod model;
pub mod num;
pub mod parse;
pub mod render;
