//! The quote: a price turned into whole dollars and cents, and the one way
//! in which asking for it can fail.

use crate::decimal::{append_decimal, decimal};
use crate::price::{
    at_most, capped_floor, floor_mod_hundred, is_whole_part, lemma_floor_is_whole_part,
    round_to_significand, RawPrice,
};
use crate::pricing::{
    price_view, reply_price, reply_text, OracleReply, PriceReading, PricingError,
    PricingErrorView,
};
use crate::text::push_char;
use vstd::arithmetic::div_mod::lemma_basic_div;
use vstd::arithmetic::power2::{lemma2_to64, lemma_pow2_pos, pow2};
use vstd::prelude::*;

verus! {

/// An amount of money: `dollars + cents / 100`.
#[derive(Clone, Copy, Debug, PartialEq, Eq, Structural)]
pub struct Quote {
    pub dollars: u64,
    pub cents: u32,
}

/// Why there is no quote. The reason why the pricing client failed is not
/// kept: whoever asked learns only that no quote can be had.
#[derive(Clone, Copy, Debug, PartialEq, Eq, Structural)]
pub enum QuoteError {
    Unavailable,
}

/// A quote, and the number of items that it was made for, by which the
/// count of items processed grows.
#[derive(Clone, Copy, Debug, PartialEq, Eq, Structural)]
pub struct Quoted {
    pub quote: Quote,
    pub items_counted: u64,
}

/// The dollars of a price: its whole part, or the largest `u64` where the
/// whole part is more, as it is for the infinity above zero. A price below
/// zero and a NaN have none.
pub open spec fn dollars_of(value: RawPrice) -> u64 {
    if value.is_nan() || value.sign_bit() {
        0
    } else if !value.is_finite() {
        u64::MAX
    } else {
        at_most(value.floor(), u64::MAX as nat) as u64
    }
}

/// The cents of a price: the whole part of a hundred times the price, less
/// its full hundreds, however large the price. A price below zero, a NaN
/// and an infinity have none.
pub open spec fn cents_of(value: RawPrice) -> u32 {
    if !value.is_finite() || value.sign_bit() {
        0
    } else {
        (value.hundredfold_floor() % 100) as u32
    }
}

/// The quote that a price comes to.
pub open spec fn normalized(value: RawPrice) -> Quote {
    Quote { dollars: dollars_of(value), cents: cents_of(value) }
}

/// What becomes of the pricing client's result: a price is turned into a
/// quote, and every failure into `Unavailable`.
pub open spec fn quote_of(count: u32, price: Result<PriceReading, PricingErrorView>) -> Result<
    Quoted,
    QuoteError,
> {
    match price {
        Ok(reading) => Ok(
            Quoted { quote: normalized(reading.price), items_counted: count as u64 },
        ),
        Err(_) => Err(QuoteError::Unavailable),
    }
}

/// Of a finite price that is not below zero, the quote has less than a
/// hundred cents: those that the whole part of a hundred times the price
/// leaves over its full hundreds. Its dollars are the whole part of the
/// price wherever a `u64` holds that.
pub proof fn lemma_quote_of_nonnegative(value: RawPrice)
    requires
        value.is_finite(),
        !value.is_negative(),
    ensures
        normalized(value).cents < 100,
        normalized(value).cents == value.hundredfold_floor() % 100,
        value.floor() <= u64::MAX ==> normalized(value).dollars == value.floor(),
        is_whole_part(value.floor(), value.significand(), value.exponent()),
{
    lemma_floor_is_whole_part(value);
    if value.sign_bit() {
        lemma2_to64();
        lemma_pow2_pos(1074);
        lemma_basic_div(0, pow2(1074) as int);
    }
}

/// However many items are asked for: where the oracle is out of reach,
/// no quote is available.
pub proof fn lemma_unreachable_is_unavailable(count: u32, number: Option<RawPrice>)
    ensures
        quote_of(count, reply_price(OracleReply::Unreachable, number)) == Err::<
            Quoted,
            QuoteError,
        >(QuoteError::Unavailable),
{
}

/// However many items are asked for, and whatever the oracle replied: where
/// the text of the reply is no number, no quote is available.
pub proof fn lemma_no_number_is_unavailable(count: u32, reply: OracleReply)
    ensures
        quote_of(count, reply_price(reply, None)) == Err::<Quoted, QuoteError>(
            QuoteError::Unavailable,
        ),
{
}

/// A quote is had exactly where the reply holds text and the text is a
/// finite number; it is then the quote of that number, made for `count`
/// items.
pub proof fn lemma_quote_available(count: u32, reply: OracleReply, number: Option<RawPrice>)
    ensures
        quote_of(count, reply_price(reply, number)) is Ok <==> reply_text(reply) is Ok
            && number is Some && number->0.is_finite(),
        quote_of(count, reply_price(reply, number)) matches Ok(quoted) ==> quoted.quote
            == normalized(number->0) && quoted.items_counted == count,
        quote_of(count, reply_price(reply, number)) matches Err(e) ==> e
            == QuoteError::Unavailable,
{
}

impl Quote {
    /// A quote is well formed where its cents are less than a dollar.
    pub open spec fn wf(self) -> bool {
        self.cents < 100
    }

    /// The quote as text: the dollars, a point, and the cents, each as a
    /// plain decimal number. The cents are not padded to two digits.
    pub open spec fn text(self) -> Seq<char> {
        decimal(self.dollars as nat) + seq!['.'] + decimal(self.cents as nat)
    }

    /// The quote as text.
    pub fn to_string(&self) -> (s: String)
        ensures
            s@ == self.text(),
    {
        let mut s = String::new();
        append_decimal(&mut s, self.dollars);
        push_char(&mut s, '.');
        append_decimal(&mut s, self.cents as u64);
        assert(s@ =~= self.text());
        s
    }
}

/// Turns a price into a quote. The dollars are the whole part of the price.
/// The cents are taken from a hundred times the price, computed in binary64
/// as the price itself is, and not from what the price has beyond its whole
/// part. A price below zero gives the quote of nothing, `0.0`, and so does
/// a NaN; the infinity above zero gives the largest dollars and no cents.
pub fn create_quote_from_float(value: RawPrice) -> (quote: Quote)
    ensures
        quote == normalized(value),
        quote.wf(),
{
    let field: u64 = (value.bits / 0x10_0000_0000_0000) % 0x800;
    let fraction: u64 = value.bits % 0x10_0000_0000_0000;
    if value.bits >= 0x8000_0000_0000_0000 || (field == 0x7FF && fraction != 0) {
        return Quote { dollars: 0, cents: 0 };
    }
    if field == 0x7FF {
        return Quote { dollars: u64::MAX, cents: 0 };
    }
    let significand: u64 = if field == 0 {
        fraction
    } else {
        0x10_0000_0000_0000 + fraction
    };
    let exponent: i64 = if field == 0 {
        -1074
    } else {
        field as i64 - 1075
    };
    let dollars = capped_floor(significand, exponent, u64::MAX);
    let (rounded, cut) = round_to_significand(100 * significand);
    let cents = floor_mod_hundred(rounded, exponent + cut as i64);
    Quote { dollars, cents: cents as u32 }
}

/// Makes the quote for `count` items out of what the pricing client came
/// back with.
pub fn create_quote_from_count(count: u32, price: Result<PriceReading, PricingError>) -> (r: Result<
    Quoted,
    QuoteError,
>)
    ensures
        r == quote_of(count, price_view(price)),
{
    match price {
        Ok(reading) => Ok(
            Quoted { quote: create_quote_from_float(reading.price), items_counted: count as u64 },
        ),
        Err(_) => Err(QuoteError::Unavailable),
    }
}

} // verus!
