use grid_trade::decimal::Decimal;
use grid_trade::math::Range;
use grid_trade::position::Position;
use grid_trade::trade::Trade;
use grid_trade::trade::TradeError;
use grid_trade::trade::Executor;
use grid_trade::trade::Trader;

use std::str::FromStr;

fn dec(value: &str) -> Decimal {
    let d = rust_decimal::Decimal::from_str(value).unwrap();
    Decimal::from_parts(d.mantissa(), d.scale()).unwrap()
}

struct TradeAgent {
    commission: Decimal,
}

impl TradeAgent {
    fn with_commission(value: &str) -> Self {
        Self { commission: dec(value) }
    }
}

impl Default for TradeAgent {
    fn default() -> Self {
        Self { commission: dec("0") }
    }
}

impl Trader for TradeAgent {
    fn buy(&self, price: &Decimal, quantity: &Decimal) -> Result<Vec<Trade>, TradeError> {
        if !Decimal::zero().lt(price) {
            return Err(TradeError::InvalidPrice);
        }
        if quantity.lt(&Decimal::zero()) {
            return Err(TradeError::InvalidQuantity);
        }
        let keep = Decimal::one().checked_sub(&self.commission).unwrap();
        let base_quantity = quantity.checked_div(price).unwrap().checked_mul(&keep).unwrap();
        Ok(vec![Trade::with_buy(*price, base_quantity, *quantity)])
    }

    fn sell(&self, price: &Decimal, quantity: &Decimal) -> Result<Vec<Trade>, TradeError> {
        if !Decimal::zero().lt(price) {
            return Err(TradeError::InvalidPrice);
        }
        if quantity.lt(&Decimal::zero()) {
            return Err(TradeError::InvalidQuantity);
        }
        let keep = Decimal::one().checked_sub(&self.commission).unwrap();
        let quote_quantity = quantity.checked_mul(price).unwrap().checked_mul(&keep).unwrap();
        Ok(vec![Trade::with_sell(*price, *quantity, quote_quantity)])
    }
}

#[test]
fn position_test_min_profit_trades_with_short() {
    let position = Position {
        buying_prices: vec![Range(dec("30"), dec("50"))],
        selling_prices: vec![Range(dec("200"), dec("250"))],
        base_quantity: dec("0.0"),
        quote_quantity: dec("20.0"),
    };

    let agent = TradeAgent::default();

    let trades = position.min_profit_trades(&agent).unwrap();
    assert_eq!(
        trades,
        vec![
            Trade::with_buy(dec("50"), dec("0.4"), dec("20.0")),
            Trade::with_sell(dec("200"), dec("0.4"), dec("80.0"))
        ]
    );

    let agent = TradeAgent::with_commission("0.001");
    let trades = position.min_profit_trades(&agent).unwrap();
    assert_eq!(
        trades,
        vec![
            Trade::with_buy(dec("50"), dec("0.3996"), dec("20.0")),
            Trade::with_sell(dec("200"), dec("0.3996"), dec("79.8400800"))
        ]
    );
}

#[test]
fn position_test_min_profit_trades() {
    let position = Position {
        buying_prices: vec![Range(dec("30"), dec("80"))],
        selling_prices: vec![Range(dec("210"), dec("250"))],
        base_quantity: dec("5.0"),
        quote_quantity: dec("20.0"),
    };

    let trades = position.min_profit_trades(&TradeAgent::with_commission("0")).unwrap();
    assert_eq!(
        trades,
        vec![
            Trade::with_sell(dec("210"), dec("5"), dec("1050")),
            Trade::with_buy(dec("80"), dec("13.375"), dec("1070")),
            Trade::with_sell(dec("210"), dec("13.375"), dec("2808.75"))
        ]
    );
}

#[test]
fn position_test_min_profit_trades_with_mulit_prices() {
    let position = Position {
        buying_prices: vec![Range(dec("30"), dec("80")), Range(dec("90"), dec("100"))],
        selling_prices: vec![Range(dec("210"), dec("250")), Range(dec("205"), dec("200"))],
        base_quantity: dec("5.0"),
        quote_quantity: dec("20.0"),
    };

    let trades = position.min_profit_trades(&TradeAgent::with_commission("0")).unwrap();
    assert_eq!(
        trades,
        vec![
            Trade::with_sell(dec("200"), dec("5"), dec("1000")),
            Trade::with_buy(dec("100"), dec("10.2"), dec("1020")),
            Trade::with_sell(dec("200"), dec("10.2"), dec("2040"))
        ]
    );
}

#[test]
fn test_trap_same_price() {
    let mut position = Position {
        buying_prices: vec![Range(dec("30"), dec("80"))],
        selling_prices: vec![Range(dec("70"), dec("80"))],
        base_quantity: dec("5.0"),
        quote_quantity: dec("20.0"),
    };

    let trades = position.trap(&TradeAgent::with_commission("0"), &dec("80")).unwrap();
    assert_eq!(
        trades,
        vec![
            Trade::with_sell(dec("80"), dec("5"), dec("400")),
            Trade::with_buy(dec("80"), dec("5.250"), dec("420.0"))
        ]
    );
}

#[test]
fn position_test_trap() {
    let mut position = Position {
        buying_prices: vec![Range(dec("10"), dec("20"))],
        selling_prices: vec![Range(dec("50"), dec("80"))],
        base_quantity: dec("0"),
        quote_quantity: dec("20.0"),
    };

    let trades = position.trap(&TradeAgent::with_commission("0"), &dec("80")).unwrap();
    assert_eq!(trades, vec![]);

    let trades = position.trap(&TradeAgent::with_commission("0"), &dec("20")).unwrap();
    assert_eq!(trades, vec![Trade::with_buy(dec("20"), dec("1"), dec("20"))]);
}

#[test]
fn trap_updates_inventory() {
    let mut position = Position {
        buying_prices: vec![Range(dec("10"), dec("20"))],
        selling_prices: vec![Range(dec("50"), dec("80"))],
        base_quantity: dec("0"),
        quote_quantity: dec("20.0"),
    };

    position.trap(&TradeAgent::default(), &dec("20")).unwrap();
    assert_eq!(position.base_quantity, dec("1"));
    assert_eq!(position.quote_quantity, dec("0"));

    position.trap(&TradeAgent::default(), &dec("50")).unwrap();
    assert_eq!(position.base_quantity, dec("0"));
    assert_eq!(position.quote_quantity, dec("50"));
}

#[test]
fn empty_band_sentinels() {
    let position = Position {
        buying_prices: vec![],
        selling_prices: vec![],
        base_quantity: dec("0"),
        quote_quantity: dec("20.0"),
    };

    assert_eq!(position.max_buying_price(), Decimal::zero());
    assert_eq!(position.min_selling_price(), Decimal::max_value());
    assert!(!position.is_within_buying_price(&dec("10")));
    assert!(!position.is_within_selling_price(&dec("10")));
    assert!(position.is_short());
}

#[test]
fn min_profit_trades_surfaces_trader_rejection() {
    let position = Position {
        buying_prices: vec![],
        selling_prices: vec![Range(dec("200"), dec("250"))],
        base_quantity: dec("0"),
        quote_quantity: dec("20.0"),
    };

    // No buying band: the buy leg is attempted at the zero sentinel price,
    // which the trader rejects.
    let result = position.min_profit_trades(&TradeAgent::default());
    assert_eq!(result, Err(TradeError::InvalidPrice));
}

#[test]
fn trap_collection_concatenates_in_order() {
    let mut positions = vec![
        Position {
            buying_prices: vec![Range(dec("10"), dec("20"))],
            selling_prices: vec![Range(dec("50"), dec("80"))],
            base_quantity: dec("0"),
            quote_quantity: dec("20.0"),
        },
        Position {
            buying_prices: vec![Range(dec("15"), dec("25"))],
            selling_prices: vec![Range(dec("60"), dec("90"))],
            base_quantity: dec("0"),
            quote_quantity: dec("40"),
        },
    ];

    let trades = positions.trap(&TradeAgent::default(), &dec("20")).unwrap();
    // Both buying bands contain 20: one fill per position, in index order.
    assert_eq!(
        trades,
        vec![
            Trade::with_buy(dec("20"), dec("1"), dec("20")),
            Trade::with_buy(dec("20"), dec("2"), dec("40"))
        ]
    );
    assert_eq!(positions[0].base_quantity, dec("1"));
    assert_eq!(positions[1].base_quantity, dec("2"));
    assert_eq!(positions[0].quote_quantity, dec("0"));
    assert_eq!(positions[1].quote_quantity, dec("0"));
}

struct RejectingAgent;

impl Trader for RejectingAgent {
    fn buy(&self, _price: &Decimal, _quantity: &Decimal) -> Result<Vec<Trade>, TradeError> {
        Err(TradeError::TraderFailure)
    }

    fn sell(&self, _price: &Decimal, _quantity: &Decimal) -> Result<Vec<Trade>, TradeError> {
        Err(TradeError::TraderFailure)
    }
}

#[test]
fn trap_surfaces_trader_failure_unchanged() {
    let mut position = Position {
        buying_prices: vec![Range(dec("10"), dec("20"))],
        selling_prices: vec![Range(dec("50"), dec("80"))],
        base_quantity: dec("0"),
        quote_quantity: dec("20.0"),
    };

    let result = position.trap(&RejectingAgent, &dec("15"));
    assert_eq!(result, Err(TradeError::TraderFailure));
    // The failed call changed nothing.
    assert_eq!(position.quote_quantity, dec("20.0"));
}

#[test]
fn negative_inventory_is_rejected_by_the_trader() {
    let mut position = Position {
        buying_prices: vec![],
        selling_prices: vec![Range(dec("50"), dec("80"))],
        base_quantity: dec("-1"),
        quote_quantity: dec("20.0"),
    };

    let result = position.trap(&TradeAgent::default(), &dec("50"));
    assert_eq!(result, Err(TradeError::InvalidQuantity));
}

struct HugeFillAgent;

impl Trader for HugeFillAgent {
    fn buy(&self, price: &Decimal, quantity: &Decimal) -> Result<Vec<Trade>, TradeError> {
        if !Decimal::zero().lt(price) {
            return Err(TradeError::InvalidPrice);
        }
        if quantity.lt(&Decimal::zero()) {
            return Err(TradeError::InvalidQuantity);
        }
        Ok(vec![Trade::with_buy(*price, Decimal::max_value(), *quantity)])
    }

    fn sell(&self, price: &Decimal, quantity: &Decimal) -> Result<Vec<Trade>, TradeError> {
        if !Decimal::zero().lt(price) {
            return Err(TradeError::InvalidPrice);
        }
        if quantity.lt(&Decimal::zero()) {
            return Err(TradeError::InvalidQuantity);
        }
        Ok(vec![Trade::with_sell(*price, *quantity, Decimal::max_value())])
    }
}

#[test]
fn trap_reports_overflow() {
    let mut position = Position {
        buying_prices: vec![],
        selling_prices: vec![Range(dec("50"), dec("80"))],
        base_quantity: dec("1"),
        quote_quantity: Decimal::max_value(),
    };

    // The sell fill would push the quote inventory past the representable
    // range.
    let result = position.trap(&HugeFillAgent, &dec("50"));
    assert_eq!(result, Err(TradeError::Overflow));
    // The failed leg left the position untouched.
    assert_eq!(position.base_quantity, dec("1"));
    assert_eq!(position.quote_quantity, Decimal::max_value());
}
