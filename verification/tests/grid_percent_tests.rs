use grid_trade::decimal::Decimal;
use grid_trade::grid_percent::GridPercent;
use grid_trade::math::Range;
use grid_trade::position::Position;

use std::str::FromStr;

fn dec(value: &str) -> Decimal {
    let d = rust_decimal::Decimal::from_str(value).unwrap();
    Decimal::from_parts(d.mantissa(), d.scale()).unwrap()
}

#[test]
fn test_positions() {
    let grid = GridPercent::new(dec("100"), Range(dec("50"), dec("60")), dec("0.01"), dec("0"));
    let positions = grid.assign_position();

    assert_eq!(
        positions,
        vec![
            Position {
                buying_prices: vec![Range(dec("50"), dec("50.5"))],
                selling_prices: vec![Range(dec("51.005"), dec("60"))],
                base_quantity: dec("0"),
                quote_quantity: dec("100")
            },
            Position {
                buying_prices: vec![Range(dec("51.51505"), dec("52.0302005"))],
                selling_prices: vec![Range(dec("52.550502505"), dec("60"))],
                base_quantity: dec("0"),
                quote_quantity: dec("100")
            },
            Position {
                buying_prices: vec![Range(dec("53.07600753005"), dec("53.60676760535"))],
                selling_prices: vec![Range(dec("54.142835281403"), dec("60"))],
                base_quantity: dec("0"),
                quote_quantity: dec("100")
            },
            Position {
                buying_prices: vec![Range(dec("54.684263634217"), dec("55.231106270559"))],
                selling_prices: vec![Range(dec("55.783417333264"), dec("60"))],
                base_quantity: dec("0"),
                quote_quantity: dec("100")
            },
            Position {
                buying_prices: vec![Range(dec("56.341251506596"), dec("56.904664021661"))],
                selling_prices: vec![Range(dec("57.473710661877"), dec("60"))],
                base_quantity: dec("0"),
                quote_quantity: dec("100")
            },
            Position {
                buying_prices: vec![Range(dec("58.048447768495"), dec("58.628932246179"))],
                selling_prices: vec![Range(dec("59.215221568640"), dec("60"))],
                base_quantity: dec("0"),
                quote_quantity: dec("100")
            }
        ]
    );

    let grid = GridPercent::new(dec("100"), Range(dec("100"), dec("200")), dec("0.05"), dec("0"));
    let positions = grid.assign_position();

    assert_eq!(
        positions,
        vec![
            Position {
                buying_prices: vec![Range(dec("100"), dec("105"))],
                selling_prices: vec![Range(dec("110.25"), dec("200"))],
                base_quantity: dec("0"),
                quote_quantity: dec("100")
            },
            Position {
                buying_prices: vec![Range(dec("115.7625"), dec("121.550625"))],
                selling_prices: vec![Range(dec("127.62815625"), dec("200"))],
                base_quantity: dec("0"),
                quote_quantity: dec("100")
            },
            Position {
                buying_prices: vec![Range(dec("134.0095640625"), dec("140.710042265625"))],
                selling_prices: vec![Range(dec("147.745544378906"), dec("200"))],
                base_quantity: dec("0"),
                quote_quantity: dec("100")
            },
            Position {
                buying_prices: vec![Range(dec("155.132821597851"), dec("162.889462677743"))],
                selling_prices: vec![Range(dec("171.033935811630"), dec("200"))],
                base_quantity: dec("0"),
                quote_quantity: dec("100")
            }
        ]
    );
}

#[test]
fn test_positions_stop_lost() {
    let grid = GridPercent::new(dec("100"), Range(dec("100"), dec("200")), dec("0.05"), dec("0.1"));
    let positions = grid.assign_position();

    assert_eq!(
        positions,
        vec![
            Position {
                buying_prices: vec![Range(dec("100"), dec("105"))],
                selling_prices: vec![
                    Range(dec("110.25"), dec("200")),
                    Range(dec("0"), dec("99.225"))
                ],
                base_quantity: dec("0"),
                quote_quantity: dec("100")
            },
            Position {
                buying_prices: vec![Range(dec("115.7625"), dec("121.550625"))],
                selling_prices: vec![
                    Range(dec("127.62815625"), dec("200")),
                    Range(dec("0"), dec("114.865340625"))
                ],
                base_quantity: dec("0"),
                quote_quantity: dec("100")
            },
            Position {
                buying_prices: vec![Range(dec("134.0095640625"), dec("140.710042265625"))],
                selling_prices: vec![
                    Range(dec("147.745544378906"), dec("200")),
                    Range(dec("0"), dec("132.9709899410154"))
                ],
                base_quantity: dec("0"),
                quote_quantity: dec("100")
            },
            Position {
                buying_prices: vec![Range(dec("155.132821597851"), dec("162.889462677743"))],
                selling_prices: vec![
                    Range(dec("171.033935811630"), dec("200")),
                    Range(dec("0"), dec("153.930542230467"))
                ],
                base_quantity: dec("0"),
                quote_quantity: dec("100")
            }
        ]
    );
}

#[test]
fn short_ladder_yields_no_positions() {
    // A range so tight that fewer than four rungs fit: the strategy yields
    // an empty list, not an error.
    let grid = GridPercent::new(dec("100"), Range(dec("50"), dec("50.6")), dec("0.01"), dec("0"));
    assert_eq!(grid.assign_position(), vec![]);
}

#[test]
fn consecutive_zones_share_a_boundary_rung() {
    // The second zone's buy band starts where the first zone's sell band
    // started plus one rung step below it: window starts advance by three
    // rungs, so each zone's first rung is the previous zone's guard rung.
    let grid = GridPercent::new(dec("100"), Range(dec("100"), dec("200")), dec("0.05"), dec("0"));
    let positions = grid.assign_position();
    // Zone 0 covers rungs 0..=2; its guard rung 3 (115.7625) opens zone 1.
    assert_eq!(positions[1].buying_prices[0].0, dec("115.7625"));
}
