use grid_trade::decimal::Decimal;
use grid_trade::grid::Grid;
use grid_trade::math::Range;
use grid_trade::position::Position;

use std::str::FromStr;

fn dec(value: &str) -> Decimal {
    let d = rust_decimal::Decimal::from_str(value).unwrap();
    Decimal::from_parts(d.mantissa(), d.scale()).unwrap()
}

#[test]
fn grid_test_trap() {
    let grid = Grid { investment: dec("30"), range: Range(dec("50"), dec("100")), copies: 1 };

    assert_eq!(
        grid.trap(),
        vec![Position {
            buying_prices: vec![Range(dec("50"), dec("62.5"))],
            selling_prices: vec![Range(dec("87.5"), dec("100"))],
            base_quantity: dec("0"),
            quote_quantity: dec("30.0")
        },]
    );

    let grid = Grid { investment: dec("30"), range: Range(dec("50"), dec("100")), copies: 2 };

    assert_eq!(
        grid.trap(),
        vec![
            Position {
                buying_prices: vec![Range(dec("50"), dec("58.333333"))],
                selling_prices: vec![Range(dec("74.999999"), dec("100"))],
                base_quantity: dec("0"),
                quote_quantity: dec("15.0")
            },
            Position {
                buying_prices: vec![Range(dec("66.666666"), dec("74.999999"))],
                selling_prices: vec![Range(dec("91.666665"), dec("100"))],
                base_quantity: dec("0"),
                quote_quantity: dec("15.0")
            },
        ]
    );

    let grid = Grid { investment: dec("30"), range: Range(dec("50"), dec("100")), copies: 3 };

    assert_eq!(
        grid.trap(),
        vec![
            Position {
                buying_prices: vec![Range(dec("50"), dec("56.250000"))],
                selling_prices: vec![Range(dec("68.750000"), dec("100"))],
                base_quantity: dec("0"),
                quote_quantity: dec("10.0")
            },
            Position {
                buying_prices: vec![Range(dec("62.500000"), dec("68.750000"))],
                selling_prices: vec![Range(dec("81.250000"), dec("100"))],
                base_quantity: dec("0"),
                quote_quantity: dec("10.0")
            },
            Position {
                buying_prices: vec![Range(dec("75.000000"), dec("81.250000"))],
                selling_prices: vec![Range(dec("93.750000"), dec("100"))],
                base_quantity: dec("0"),
                quote_quantity: dec("10.0")
            },
        ]
    );
}

#[test]
fn grid_new_keeps_parameters() {
    let grid = Grid::new(dec("30"), Range(dec("50"), dec("100")), 4);
    assert_eq!(grid.investment, dec("30"));
    assert_eq!(grid.range, Range(dec("50"), dec("100")));
    assert_eq!(grid.copies, 4);
}

#[test]
fn grid_reversed_range_partitions_the_same() {
    let grid = Grid::new(dec("30"), Range(dec("100"), dec("50")), 1);
    assert_eq!(
        grid.trap(),
        vec![Position {
            buying_prices: vec![Range(dec("50"), dec("62.5"))],
            selling_prices: vec![Range(dec("87.5"), dec("100"))],
            base_quantity: dec("0"),
            quote_quantity: dec("30.0")
        },]
    );
}
