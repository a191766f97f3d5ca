use grid_trade::decimal::Decimal;
use grid_trade::trade::Trade;

use std::str::FromStr;

fn dec(value: &str) -> Decimal {
    let d = rust_decimal::Decimal::from_str(value).unwrap();
    Decimal::from_parts(d.mantissa(), d.scale()).unwrap()
}

#[test]
fn test_profit() {
    let trades = vec![
        Trade::with_sell_side(dec("210"), dec("5"), dec("1050")),
        Trade::with_buy_side(dec("80"), dec("13.375"), dec("1070")),
        Trade::with_sell_side(dec("210"), dec("13.375"), dec("2808.75")),
    ];

    assert_eq!(Trade::profit(&trades), (dec("-5"), dec("2788.75")));

    let trades = vec![
        Trade::with_buy_side(dec("50"), dec("0.3996"), dec("20.0")),
        Trade::with_sell_side(dec("200"), dec("0.3996"), dec("79.8400800")),
    ];

    assert_eq!(Trade::profit(&trades), (dec("0"), dec("59.8400800")));

    let trades = vec![
        Trade::with_buy_side(dec("50"), dec("0.3996"), dec("20.0")),
        Trade::with_sell_side(dec("200"), dec("0.3996"), dec("79.8400800")),
        Trade::with_buy_side(dec("50"), dec("9.99"), dec("500.0")),
    ];

    assert_eq!(Trade::profit(&trades), (dec("9.99"), dec("-440.1599200")));

    let trades = vec![
        Trade::with_buy_side(dec("50"), dec("0.3996"), dec("20.0")),
        Trade::with_sell_side(dec("200"), dec("0.3996"), dec("79.8400800")),
        Trade::with_buy_side(dec("50"), dec("9.99"), dec("500.0")),
        Trade::with_sell_side(dec("200"), dec("9.99"), dec("1996.002")),
    ];

    assert_eq!(Trade::profit(&trades), (dec("0"), dec("1555.8420800")));

    let trades = vec![
        Trade::with_buy_side(dec("50"), dec("0.3996"), dec("20.0")),
        Trade::with_sell_side(dec("200"), dec("0.3996"), dec("79.8400800")),
        Trade::with_buy_side(dec("50"), dec("0.3996"), dec("20.0")),
    ];

    assert_eq!(Trade::profit(&trades), (dec("0.3996"), dec("39.8400800")));
}

#[test]
fn test_costs() {
    let trade = Trade::with_buy(dec("10"), dec("5"), dec("50"));
    assert_eq!(trade.costs(), dec("0"));

    let trade = Trade::with_buy(dec("50"), dec("0.3996"), dec("20.0"));
    assert_eq!(trade.costs(), dec("0.02"));

    let trade = Trade::with_buy(dec("507.545135202621"), dec("0.09841489"), dec("50"));
    assert_eq!(trade.costs(), dec("0.0500013489989265733099999825"));

    let trade = Trade::with_sell(dec("509.067770608228"), dec("0.098"), dec("49.8387528781"));
    assert_eq!(trade.costs(), dec("0.049888641506344"));

    let trade = Trade::with_sell(dec("200"), dec("0.3996"), dec("79.84008"));
    assert_eq!(trade.costs(), dec("0.07992"));
}
