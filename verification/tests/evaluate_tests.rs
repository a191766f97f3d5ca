use grid_trade::decimal::Decimal;
use grid_trade::evaluate::Evaluate;
use grid_trade::evaluate::Evaluater;
use grid_trade::trade::Trade;

use std::str::FromStr;

fn dec(value: &str) -> Decimal {
    let d = rust_decimal::Decimal::from_str(value).unwrap();
    Decimal::from_parts(d.mantissa(), d.scale()).unwrap()
}

#[test]
fn test_evaluate() {
    let trades = vec![
        Trade::with_sell(dec("210"), dec("5"), dec("1050")),
        Trade::with_buy(dec("80"), dec("13.375"), dec("1070")),
        Trade::with_sell(dec("210"), dec("13.375"), dec("2808.75")),
    ];

    assert_eq!(
        trades.evaluate(),
        Evaluate {
            volume_base_quantity: dec("31.750"),
            volume_quote_quantity: dec("4928.75"),
            leave_base_quantity: dec("-5"),
            leave_quote_quantity: dec("2788.75"),
            buy_count: 1,
            sell_count: 2,
            max_price: dec("210"),
            min_price: dec("80"),
            costs: dec("0")
        }
    );

    let trades = vec![
        Trade::with_buy(dec("50"), dec("0.3996"), dec("20.0")),
        Trade::with_sell(dec("200"), dec("0.3996"), dec("79.8400800")),
    ];

    assert_eq!(
        trades.evaluate(),
        Evaluate {
            volume_base_quantity: dec("0.7992"),
            volume_quote_quantity: dec("99.8400800"),
            leave_base_quantity: dec("0"),
            leave_quote_quantity: dec("59.8400800"),
            buy_count: 1,
            sell_count: 1,
            max_price: dec("200"),
            min_price: dec("50"),
            costs: dec("0.0999200")
        }
    );

    let trades = vec![
        Trade::with_buy(dec("50"), dec("0.3996"), dec("20.0")),
        Trade::with_sell(dec("200"), dec("0.3996"), dec("79.8400800")),
        Trade::with_buy(dec("50"), dec("9.99"), dec("500.0")),
    ];

    assert_eq!(
        trades.evaluate(),
        Evaluate {
            volume_base_quantity: dec("10.7892"),
            volume_quote_quantity: dec("599.8400800"),
            leave_base_quantity: dec("9.99"),
            leave_quote_quantity: dec("-440.1599200"),
            buy_count: 2,
            sell_count: 1,
            max_price: dec("200"),
            min_price: dec("50"),
            costs: dec("0.5999200")
        }
    );

    let trades = vec![
        Trade::with_buy(dec("507.545135202621"), dec("0.09841489"), dec("50")),
        Trade::with_sell(dec("509.067770608228"), dec("0.098"), dec("49.8387528781")),
    ];

    assert_eq!(
        trades.evaluate(),
        Evaluate {
            volume_base_quantity: dec("0.19641489"),
            volume_quote_quantity: dec("99.8387528781"),
            leave_base_quantity: dec("0.00041489"),
            leave_quote_quantity: dec("-0.1612471219"),
            buy_count: 1,
            sell_count: 1,
            max_price: dec("509.067770608228"),
            min_price: dec("507.545135202621"),
            costs: dec("0.0998899905052705733099999825")
        }
    );
}

#[test]
fn evaluate_empty_history_is_default() {
    let trades: Vec<Trade> = vec![];
    assert_eq!(trades.evaluate(), Evaluate::default());
    assert_eq!(Evaluate::default().max_price, Decimal::zero());
    assert_eq!(Evaluate::default().min_price, Decimal::max_value());
}
