//! The pricing client: what is asked of the pricing oracle, and what its
//! answer is worth. The call itself is made elsewhere; this module decides
//! what goes out and reads what came back.

use crate::decimal::{append_decimal, decimal};
use crate::price::RawPrice;
use crate::text::{string_from_utf8, trim, trimmed};
use vstd::prelude::*;
use vstd::string::StringExecFns;
use vstd::utf8::{decode_utf8, valid_utf8};

verus! {

/// Why no price came out of a call to the oracle.
#[derive(Clone, Debug, PartialEq, Eq)]
pub enum PricingError {
    /// The oracle could not be reached.
    Transport,
    /// The oracle answered with a status other than success.
    OracleRejected(u16),
    /// The body of the answer could not be read, or is not UTF-8 text.
    BadResponse,
    /// The text of the answer, which is given, is not a finite number.
    InvalidPriceFormat(String),
}

/// A `PricingError` with its text as a sequence of characters.
pub enum PricingErrorView {
    Transport,
    OracleRejected(u16),
    BadResponse,
    InvalidPriceFormat(Seq<char>),
}

impl View for PricingError {
    type V = PricingErrorView;

    open spec fn view(&self) -> PricingErrorView {
        match self {
            PricingError::Transport => PricingErrorView::Transport,
            PricingError::OracleRejected(status) => PricingErrorView::OracleRejected(*status),
            PricingError::BadResponse => PricingErrorView::BadResponse,
            PricingError::InvalidPriceFormat(text) => PricingErrorView::InvalidPriceFormat(text@),
        }
    }
}

/// One request to the oracle.
#[derive(Clone, Debug, PartialEq, Eq)]
pub struct OracleRequest {
    /// Where the request is posted.
    pub url: String,
    /// The JSON text that is posted.
    pub payload: String,
    /// Set where the request asks for a quote on no items at all: that is
    /// no error, but unusual.
    pub zero_items: bool,
}

/// What came of one request to the oracle.
#[derive(Clone, Debug, PartialEq, Eq)]
pub enum OracleReply {
    /// No answer: the connection failed, timed out, or the like.
    Unreachable,
    /// An answer, with its status code and its body; the body is `None`
    /// where it could not be read in full.
    Answered { status: u16, body: Option<Vec<u8>> },
}

/// A price that the oracle gave.
#[derive(Clone, Copy, Debug, PartialEq, Eq, Structural)]
pub struct PriceReading {
    pub price: RawPrice,
    /// Set where the price is below zero: it is passed on as it is, but is
    /// an anomaly.
    pub negative: bool,
}

/// The oracle's address: the configured one, or the default.
pub open spec fn resolved_addr(quote_addr: Option<&str>) -> Seq<char> {
    match quote_addr {
        Some(addr) => addr@,
        None => "http://quote:8090"@,
    }
}

/// Where quotes are asked for.
pub open spec fn quote_url(quote_addr: Option<&str>) -> Seq<char> {
    resolved_addr(quote_addr) + "/getquote"@
}

/// The JSON object that asks for a quote on `count` items.
pub open spec fn quote_payload(count: u32) -> Seq<char> {
    "{\"numberOfItems\":"@ + decimal(count as nat) + "}"@
}

/// Whether a status code reports success.
pub open spec fn is_success(status: u16) -> bool {
    200 <= status < 300
}

/// The text that a reply holds, trimmed, or the reason why it holds none.
pub open spec fn reply_text(reply: OracleReply) -> Result<Seq<char>, PricingErrorView> {
    match reply {
        OracleReply::Unreachable => Err(PricingErrorView::Transport),
        OracleReply::Answered { status, body } => {
            if !is_success(status) {
                Err(PricingErrorView::OracleRejected(status))
            } else {
                match body {
                    Some(bytes) if valid_utf8(bytes@) => Ok(trimmed(decode_utf8(bytes@))),
                    _ => Err(PricingErrorView::BadResponse),
                }
            }
        },
    }
}

/// The price that `text` stands for, where `number` is what reading `text`
/// as a floating-point number gave (`None` where it is no number).
pub open spec fn text_price(text: Seq<char>, number: Option<RawPrice>) -> Result<
    PriceReading,
    PricingErrorView,
> {
    match number {
        Some(price) if price.is_finite() => Ok(
            PriceReading { price, negative: price.is_negative() },
        ),
        _ => Err(PricingErrorView::InvalidPriceFormat(text)),
    }
}

/// The price that a reply stands for, where `number` is what reading its
/// text as a floating-point number gave.
pub open spec fn reply_price(reply: OracleReply, number: Option<RawPrice>) -> Result<
    PriceReading,
    PricingErrorView,
> {
    match reply_text(reply) {
        Ok(text) => text_price(text, number),
        Err(e) => Err(e),
    }
}

/// A `Result` of the client's, with its text and its error by their views.
pub open spec fn text_view(r: Result<String, PricingError>) -> Result<Seq<char>, PricingErrorView> {
    match r {
        Ok(text) => Ok(text@),
        Err(e) => Err(e@),
    }
}

/// A `Result` of the client's, with its error by its view.
pub open spec fn price_view(r: Result<PriceReading, PricingError>) -> Result<
    PriceReading,
    PricingErrorView,
> {
    match r {
        Ok(reading) => Ok(reading),
        Err(e) => Err(e@),
    }
}

/// The request that asks the oracle for a quote on `count` items.
/// `quote_addr` is the oracle's configured address, if one is configured.
pub fn request_quote(quote_addr: Option<&str>, count: u32) -> (request: OracleRequest)
    ensures
        request.url@ == quote_url(quote_addr),
        request.payload@ == quote_payload(count),
        request.zero_items == (count == 0),
{
    let mut url = match quote_addr {
        Some(addr) => String::from_str(addr),
        None => String::from_str("http://quote:8090"),
    };
    url.append("/getquote");
    let mut payload = String::from_str("{\"numberOfItems\":");
    append_decimal(&mut payload, count as u64);
    payload.append("}");
    OracleRequest { url, payload, zero_items: count == 0 }
}

/// Reads the oracle's reply down to its text, trimmed of whitespace. An
/// oracle out of reach is `Transport`, a status other than success is
/// `OracleRejected`, a body that is missing or not UTF-8 is `BadResponse`.
pub fn read_reply(reply: OracleReply) -> (r: Result<String, PricingError>)
    ensures
        text_view(r) == reply_text(reply),
{
    match reply {
        OracleReply::Unreachable => Err(PricingError::Transport),
        OracleReply::Answered { status, body } => {
            if !(200 <= status && status < 300) {
                return Err(PricingError::OracleRejected(status));
            }
            let bytes = match body {
                Some(bytes) => bytes,
                None => {
                    return Err(PricingError::BadResponse);
                },
            };
            match string_from_utf8(bytes) {
                Some(text) => Ok(trim(text.as_str())),
                None => Err(PricingError::BadResponse),
            }
        },
    }
}

/// Accepts or refuses the number that `text` was read as. `number` is
/// `None` where `text` is no floating-point number. An infinity and a NaN
/// are refused like no number at all, with `InvalidPriceFormat` and the
/// text; a price below zero is accepted and marked.
pub fn read_price(text: String, number: Option<RawPrice>) -> (r: Result<PriceReading, PricingError>)
    ensures
        price_view(r) == text_price(text@, number),
{
    match number {
        Some(price) => {
            if price.finite() {
                Ok(PriceReading { price, negative: price.negative() })
            } else {
                Err(PricingError::InvalidPriceFormat(text))
            }
        },
        None => Err(PricingError::InvalidPriceFormat(text)),
    }
}

} // verus!
