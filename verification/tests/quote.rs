use shipping::price::RawPrice;
use shipping::pricing::{PriceReading, PricingError};
use shipping::quote::{
    create_quote_from_count, create_quote_from_float, Quote, QuoteError, Quoted,
};

fn price(value: f64) -> RawPrice {
    RawPrice::from_bits(value.to_bits())
}

/// The quote as floating-point arithmetic gives it: the whole part of the
/// price, and what the whole part of a hundred times the price leaves over
/// its full hundreds. There is none where the product is no finite number.
fn native(value: f64) -> Option<Quote> {
    let scaled = value * 100_f64;
    if !scaled.is_finite() {
        return None;
    }
    if value < 0.0 {
        return Some(Quote { dollars: 0, cents: 0 });
    }
    Some(Quote { dollars: value.floor() as u64, cents: (scaled.floor() % 100_f64) as u32 })
}

#[test]
fn test_create_quote_from_float() {
    let quote = create_quote_from_float(price(10.99));
    assert_eq!(quote.dollars, 10);
    assert_eq!(quote.cents, 99);

    let quote = create_quote_from_float(price(0.01));
    assert_eq!(quote.dollars, 0);
    assert_eq!(quote.cents, 1);

    let quote = create_quote_from_float(price(100.00));
    assert_eq!(quote.dollars, 100);
    assert_eq!(quote.cents, 0);
}

#[test]
fn test_quote_display() {
    let quote = Quote { dollars: 10, cents: 99 };
    assert_eq!(quote.to_string(), "10.99");

    let quote = Quote { dollars: 0, cents: 1 };
    assert_eq!(quote.to_string(), "0.1");
}

#[test]
fn quote_text_of_large_and_small_amounts() {
    assert_eq!(Quote { dollars: 0, cents: 0 }.to_string(), "0.0");
    assert_eq!(Quote { dollars: 7, cents: 10 }.to_string(), "7.10");
    assert_eq!(
        Quote { dollars: u64::MAX, cents: 95 }.to_string(),
        "18446744073709551615.95"
    );
}

#[test]
fn cents_come_from_the_scaled_price() {
    // 0.29 is a little less than 29 hundredths, and so is a hundred times it.
    assert_eq!(create_quote_from_float(price(0.29)), Quote { dollars: 0, cents: 28 });
    // 1.15 is a little less than 115 hundredths, but a hundred times it rounds to 115.
    assert_eq!(create_quote_from_float(price(1.15)), Quote { dollars: 1, cents: 14 });
    assert_eq!(create_quote_from_float(price(12.34)), Quote { dollars: 12, cents: 34 });
    assert_eq!(create_quote_from_float(price(8.07)), Quote { dollars: 8, cents: 7 });
    assert_eq!(create_quote_from_float(price(0.57)), Quote { dollars: 0, cents: 56 });
    assert_eq!(Some(create_quote_from_float(price(8.07))), native(8.07));
    assert_eq!(Some(create_quote_from_float(price(0.57))), native(0.57));
}

#[test]
fn quote_of_zero_and_of_prices_below_zero() {
    assert_eq!(create_quote_from_float(price(0.0)), Quote { dollars: 0, cents: 0 });
    assert_eq!(create_quote_from_float(price(-0.0)), Quote { dollars: 0, cents: 0 });
    assert_eq!(create_quote_from_float(price(-12.34)), Quote { dollars: 0, cents: 0 });
    assert_eq!(create_quote_from_float(price(-0.001)), Quote { dollars: 0, cents: 0 });
}

#[test]
fn quote_of_fifty_million_has_no_cents() {
    assert_eq!(
        create_quote_from_float(RawPrice::from_bits(0x4187_D784_0000_0000)),
        Quote { dollars: 50000000, cents: 0 }
    );
    assert_eq!(create_quote_from_float(price(50000000.0)), Quote { dollars: 50000000, cents: 0 });
    assert_eq!(create_quote_from_float(price(50000000.25)), Quote { dollars: 50000000, cents: 25 });
}

#[test]
fn cents_of_large_prices_are_not_capped() {
    assert_eq!(create_quote_from_float(price(42949672.95)), Quote { dollars: 42949672, cents: 95 });
    assert_eq!(create_quote_from_float(price(42949672.96)), Quote { dollars: 42949672, cents: 96 });
    assert_eq!(create_quote_from_float(price(42949672.97)), Quote { dollars: 42949672, cents: 97 });
    assert_eq!(
        create_quote_from_float(price(123456789012.34)),
        Quote { dollars: 123456789012, cents: 34 }
    );
    assert_eq!(
        create_quote_from_float(price(1e18)),
        Quote { dollars: 1_000_000_000_000_000_000, cents: 0 }
    );
    assert_eq!(
        create_quote_from_float(price(18446744073709549568.0)),
        Quote { dollars: 18446744073709549568, cents: 56 }
    );
}

#[test]
fn quote_of_prices_beyond_the_integers() {
    assert_eq!(create_quote_from_float(price(1e20)), Quote { dollars: u64::MAX, cents: 0 });
    assert_eq!(create_quote_from_float(price(1e22)), Quote { dollars: u64::MAX, cents: 84 });
    assert_eq!(create_quote_from_float(price(1e300)), Quote { dollars: u64::MAX, cents: 56 });
    assert_eq!(
        create_quote_from_float(price(18446744073709551615.0)),
        Quote { dollars: u64::MAX, cents: 0 }
    );
    // A hundred times the largest number is beyond binary64; the cents are
    // those of the product with an exponent that has room for it.
    assert_eq!(native(f64::MAX), None);
    assert_eq!(create_quote_from_float(price(f64::MAX)), Quote { dollars: u64::MAX, cents: 56 });
}

#[test]
fn quote_of_what_is_no_finite_number() {
    assert_eq!(
        create_quote_from_float(price(f64::INFINITY)),
        Quote { dollars: u64::MAX, cents: 0 }
    );
    assert_eq!(create_quote_from_float(price(f64::NAN)), Quote { dollars: 0, cents: 0 });
    assert_eq!(create_quote_from_float(price(-f64::NAN)), Quote { dollars: 0, cents: 0 });
    assert_eq!(
        create_quote_from_float(price(f64::NEG_INFINITY)),
        Quote { dollars: 0, cents: 0 }
    );
}

#[test]
fn quote_of_the_smallest_prices() {
    assert_eq!(create_quote_from_float(price(f64::MIN_POSITIVE)), Quote { dollars: 0, cents: 0 });
    assert_eq!(
        create_quote_from_float(RawPrice::from_bits(1)),
        Quote { dollars: 0, cents: 0 }
    );
    assert_eq!(
        create_quote_from_float(price(0.009999999999999998)),
        Quote { dollars: 0, cents: 0 }
    );
    assert_eq!(create_quote_from_float(price(0.999999999999999)), Quote { dollars: 0, cents: 99 });
    assert_eq!(
        Some(create_quote_from_float(price(0.9999999999999999))),
        native(0.9999999999999999)
    );
}

#[test]
fn quote_agrees_with_floating_point_on_every_cent_up_to_a_thousand_dollars() {
    let mut hundredths: u32 = 0;
    while hundredths < 100_000 {
        let value = hundredths as f64 / 100.0;
        assert_eq!(Some(create_quote_from_float(price(value))), native(value), "{}", value);
        hundredths += 1;
    }
}

#[test]
fn quote_agrees_with_floating_point_on_every_cent_around_the_largest_u32() {
    let mut hundredths: u64 = 4_294_900_000;
    while hundredths < 4_295_000_000 {
        let value = hundredths as f64 / 100.0;
        assert_eq!(Some(create_quote_from_float(price(value))), native(value), "{}", value);
        hundredths += 1;
    }
}

#[test]
fn quote_agrees_with_floating_point_on_scattered_bit_patterns() {
    let mut state: u64 = 0x9E37_79B9_7F4A_7C15;
    let mut n = 0;
    while n < 200_000 {
        state ^= state << 13;
        state ^= state >> 7;
        state ^= state << 17;
        let value = f64::from_bits(state);
        let quote = create_quote_from_float(RawPrice::from_bits(state));
        assert!(quote.cents < 100);
        if let Some(expected) = native(value) {
            assert_eq!(quote, expected, "{:e}", value);
        }
        // The same fraction bits, with every exponent that large prices have.
        let large = (state & 0x000F_FFFF_FFFF_FFFF) | ((0x410 + ((state >> 52) & 0x7F)) << 52);
        let value = f64::from_bits(large);
        assert_eq!(
            Some(create_quote_from_float(RawPrice::from_bits(large))),
            native(value),
            "{:e}",
            value
        );
        // The same fraction bits, in the range where prices lie.
        let near = (state & 0x000F_FFFF_FFFF_FFFF) | ((0x3F0 + (state >> 59)) << 52);
        let value = f64::from_bits(near);
        assert_eq!(
            Some(create_quote_from_float(RawPrice::from_bits(near))),
            native(value),
            "{:e}",
            value
        );
        n += 1;
    }
}

#[test]
fn quote_of_a_nonnegative_price_has_its_whole_part_and_under_a_hundred_cents() {
    for value in [0.0, 0.5, 1.0, 19.99, 12345.678, 4.0e15, 9.007199254740993e15] {
        let quote = create_quote_from_float(price(value));
        assert!(quote.cents < 100);
        assert_eq!(quote.dollars, value.floor() as u64);
        assert_eq!(quote.dollars as f64, value.floor());
    }
}

#[test]
fn raw_price_keeps_its_bits_and_knows_its_class() {
    assert_eq!(RawPrice::from_bits(0x4025_FAE1_47AE_147B).to_bits(), 10.99_f64.to_bits());
    assert!(price(1.5).finite());
    assert!(price(0.0).finite());
    assert!(!price(f64::INFINITY).finite());
    assert!(!price(f64::NAN).finite());
    assert!(price(-1.5).negative());
    assert!(price(f64::NEG_INFINITY).negative());
    assert!(!price(-0.0).negative());
    assert!(!price(0.0).negative());
    assert!(!price(2.0).negative());
    assert!(!RawPrice::from_bits(f64::NAN.to_bits() | (1 << 63)).negative());
}

#[test]
fn count_and_price_give_the_quote_and_the_items_counted() {
    let reading = PriceReading { price: price(12.34), negative: false };
    assert_eq!(
        create_quote_from_count(3, Ok(reading)),
        Ok(Quoted { quote: Quote { dollars: 12, cents: 34 }, items_counted: 3 })
    );
    let reading = PriceReading { price: price(0.0), negative: false };
    assert_eq!(
        create_quote_from_count(0, Ok(reading)),
        Ok(Quoted { quote: Quote { dollars: 0, cents: 0 }, items_counted: 0 })
    );
    let reading = PriceReading { price: price(-3.5), negative: true };
    assert_eq!(
        create_quote_from_count(u32::MAX, Ok(reading)),
        Ok(Quoted { quote: Quote { dollars: 0, cents: 0 }, items_counted: 4294967295 })
    );
}

#[test]
fn every_failure_of_the_pricing_client_is_unavailable() {
    for count in [0, 1, 3, 1000, u32::MAX] {
        assert_eq!(
            create_quote_from_count(count, Err(PricingError::Transport)),
            Err(QuoteError::Unavailable)
        );
        assert_eq!(
            create_quote_from_count(count, Err(PricingError::OracleRejected(503))),
            Err(QuoteError::Unavailable)
        );
        assert_eq!(
            create_quote_from_count(count, Err(PricingError::BadResponse)),
            Err(QuoteError::Unavailable)
        );
        assert_eq!(
            create_quote_from_count(count, Err(PricingError::InvalidPriceFormat("abc".to_string()))),
            Err(QuoteError::Unavailable)
        );
    }
}
