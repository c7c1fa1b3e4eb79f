//! The deciding parts of a small shipping service: what a cart costs to
//! ship, and under which identifier an order is tracked.
//!
//! A quote is made in three steps around two pieces of work that are done
//! outside this library. [`pricing::request_quote`] says what to ask the
//! pricing oracle; once the request was posted, [`pricing::read_reply`]
//! reads the reply down to its text; once the text was read as a
//! floating-point number, [`pricing::read_price`] accepts or refuses the
//! number. [`quote::create_quote_from_count`] then turns the price into
//! dollars and cents, and [`shipping_service::get_quote`] into the answer
//! for whoever asked.
//!
//! A price is a binary64 number held by its bits ([`price::RawPrice`]), so
//! that all arithmetic on it is integer arithmetic with a proof.

pub mod decimal;
pub mod price;
pub mod pricing;
pub mod quote;
pub mod shipping_service;
pub mod text;
pub mod tracking;
