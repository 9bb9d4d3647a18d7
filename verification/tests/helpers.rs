//! Tests of the parity gate, the simulated-venue vocabulary, positions and
//! quantity helpers.

use omsrs::models::{dec_checked_add, dec_checked_div, dec_larger, BasicPosition, Dec, QuantityMatch};
use omsrs::parity_gate::{gate_arithmetic, validate_excused, ExcusedRow, GateExit, IdSet, EXCUSED_CAP};
use omsrs::persistence::PersistenceError;
use omsrs::simulation::{OrderType, ResponseStatus, Side, Status, TickerMode};
use omsrs::utils::{
    create_basic_positions_from_orders_dict, try_create_basic_positions, update_quantity, OrderRecord,
    UQty,
};
use rust_decimal::Decimal;

fn ids(xs: &[&str]) -> IdSet {
    let mut s = IdSet::new();
    for x in xs {
        s.insert(x.to_string());
    }
    s
}

fn row(id: &str) -> ExcusedRow {
    ExcusedRow {
        id: id.to_string(),
        rationale: "r".to_string(),
        approved_at: "2024-01-01".to_string(),
        approved_by: "me".to_string(),
    }
}

fn dec(m: i128, s: u32) -> Dec {
    Dec::try_new(m, s).unwrap()
}

fn as_decimal(d: &Dec) -> Decimal {
    Decimal::from_i128_with_scale(d.mantissa(), d.scale())
}

// ── parity gate ──────────────────────────────────────────────────────────

#[test]
fn gate_exit_codes() {
    assert_eq!(GateExit::Pass.code(), 0);
    assert_eq!(GateExit::RegressionOrShort.code(), 1);
    assert_eq!(GateExit::DuplicateExcused.code(), 2);
    assert_eq!(GateExit::UnknownExcusedId.code(), 3);
    assert_eq!(GateExit::R0GateViolation.code(), 4);
    assert_eq!(GateExit::ExcusedOverCap.code(), 5);
    assert_eq!(GateExit::TomlInvalid.code(), 6);
}

#[test]
fn id_set_insert_reports_duplicates() {
    let mut s = IdSet::new();
    assert!(s.is_empty());
    assert!(s.insert("a".to_string()));
    assert!(s.insert("b".to_string()));
    assert!(!s.insert("a".to_string()));
    assert_eq!(s.len(), 2);
    assert!(s.contains("b"));
    assert!(!s.contains("c"));
    assert_eq!(s.get(0), "a");
}

#[test]
fn validate_excused_ok_returns_ids_in_order() {
    let manifest = ids(&["t1", "t2", "t3"]);
    let got = validate_excused(&[row("t3"), row("t1")], &manifest, false).unwrap();
    assert_eq!(got.len(), 2);
    assert_eq!(got.get(0), "t3");
    assert_eq!(got.get(1), "t1");
}

#[test]
fn validate_excused_duplicate_before_unknown() {
    let manifest = ids(&["t1"]);
    let r = validate_excused(&[row("t1"), row("t1"), row("zz")], &manifest, false);
    assert_eq!(r.err(), Some(GateExit::DuplicateExcused));
    let r = validate_excused(&[row("zz"), row("zz")], &manifest, false);
    assert_eq!(r.err(), Some(GateExit::UnknownExcusedId));
}

#[test]
fn validate_excused_r0_gate_then_cap() {
    let names: Vec<String> = (0..9).map(|i| format!("t{i}")).collect();
    let refs: Vec<&str> = names.iter().map(|s| s.as_str()).collect();
    let manifest = ids(&refs);
    let one = validate_excused(&[row("t0")], &manifest, true);
    assert_eq!(one.err(), Some(GateExit::R0GateViolation));
    assert!(validate_excused(&[], &manifest, true).is_ok());
    let rows: Vec<ExcusedRow> = refs.iter().take(EXCUSED_CAP + 1).map(|s| row(s)).collect();
    let over = validate_excused(&rows, &manifest, false);
    assert_eq!(over.err(), Some(GateExit::ExcusedOverCap));
    let rows: Vec<ExcusedRow> = refs.iter().take(EXCUSED_CAP).map(|s| row(s)).collect();
    assert!(validate_excused(&rows, &manifest, false).is_ok());
}

#[test]
fn gate_arithmetic_cases() {
    let passing = ids(&["a", "b", "c"]);
    let excused = ids(&["x"]);
    assert_eq!(gate_arithmetic(10, &passing, &ids(&["x"]), &excused), GateExit::Pass);
    assert_eq!(
        gate_arithmetic(10, &passing, &ids(&["x", "y"]), &excused),
        GateExit::RegressionOrShort
    );
    assert_eq!(gate_arithmetic(11, &passing, &ids(&[]), &excused), GateExit::RegressionOrShort);
    // A manifest shorter than the cap needs no passing trial.
    assert_eq!(gate_arithmetic(3, &ids(&[]), &ids(&[]), &ids(&[])), GateExit::Pass);
}

// ── simulated venue vocabulary ─────────────────────────────────────────────

#[test]
fn response_status_parse_any_case() {
    assert_eq!(ResponseStatus::parse("SUCCESS"), Some(ResponseStatus::Success));
    assert_eq!(ResponseStatus::parse("Failure"), Some(ResponseStatus::Failure));
    assert_eq!(ResponseStatus::parse("ok"), None);
    assert_eq!(ResponseStatus::parse(""), None);
}

#[test]
fn side_parse_and_value() {
    assert_eq!(Side::parse("BUY"), Ok(Side::Buy));
    assert_eq!(Side::parse("b"), Ok(Side::Buy));
    assert_eq!(Side::parse("sell"), Ok(Side::Sell));
    assert_eq!(Side::parse("S"), Ok(Side::Sell));
    assert_eq!(
        Side::parse("bogus"),
        Err("bogus is not a valid side, should be buy or sell".to_string())
    );
    assert_eq!(
        Side::parse("Short"),
        Err("Short is not a valid side, should be buy or sell".to_string())
    );
    assert_eq!(
        Side::parse("hold"),
        Err("hold is not a valid side, should be buy or sell".to_string())
    );
    assert_eq!(Side::parse(""), Err(" is not a valid side, should be buy or sell".to_string()));
    assert_eq!(Side::Buy.value(), 1);
    assert_eq!(Side::Sell.value(), -1);
}

#[test]
fn order_type_parse_any_case() {
    assert_eq!(OrderType::parse("market"), Ok(OrderType::Market));
    assert_eq!(OrderType::parse("Limit"), Ok(OrderType::Limit));
    assert_eq!(OrderType::parse("STOP"), Ok(OrderType::Stop));
    assert_eq!(
        OrderType::parse("ioc"),
        Err("ioc is not a valid order type, should be one of LIMIT/MARKET".to_string())
    );
    assert_ne!(Status::Open, Status::Pending);
    assert_ne!(TickerMode::Random, TickerMode::Manual);
}

// ── quantities ─────────────────────────────────────────────────────────────

#[test]
fn update_quantity_priorities() {
    assert_eq!(update_quantity(10, 0, 0, 3), UQty::new(10, 7, 0, 3));
    assert_eq!(update_quantity(5, 0, 0, 9), UQty::new(5, 0, 0, 5));
    assert_eq!(update_quantity(10, 4, 0, 0), UQty::new(10, 4, 6, 0));
    assert_eq!(update_quantity(10, 12, 0, 0), UQty::new(10, 10, 0, 0));
    assert_eq!(update_quantity(10, 0, 4, 0), UQty::new(10, 6, 4, 0));
    assert_eq!(update_quantity(10, 0, 0, 0), UQty::new(10, 0, 10, 0));
    let u = update_quantity(8, 3, 9, 2);
    assert_eq!(u.f + u.p + u.c, u.q);
}

#[test]
fn quantity_match() {
    let m = QuantityMatch { buy: 7, sell: 7 };
    assert!(m.is_equal());
    assert_eq!(m.not_matched(), 0);
    let m = QuantityMatch { buy: 3, sell: 10 };
    assert!(!m.is_equal());
    assert_eq!(m.not_matched(), -7);
    assert_eq!(QuantityMatch::default(), QuantityMatch { buy: 0, sell: 0 });
}

// ── decimals and positions ─────────────────────────────────────────────────

#[test]
fn dec_range_and_ops() {
    assert!(Dec::try_new(1, 29).is_none());
    assert!(Dec::try_new(1i128 << 96, 0).is_none());
    assert!(Dec::try_new(-(1i128 << 96) + 1, 0).is_some());
    let s = dec_checked_add(dec(15, 1), dec(25, 2)).unwrap();
    assert_eq!(as_decimal(&s), Decimal::new(175, 2));
    assert!(dec_checked_div(dec(1, 0), Dec::zero()).is_none());
    let big = dec((1i128 << 96) - 1, 0);
    assert!(dec_checked_add(big, big).is_none());
    assert_eq!(as_decimal(&dec_larger(dec(5, 1), dec(45, 2))), Decimal::new(5, 1));
    assert_eq!(as_decimal(&dec_larger(dec(-5, 1), dec(45, 2))), Decimal::new(45, 2));
    assert_eq!(dec(-35, 1).abs().mantissa(), 35);
}

#[test]
fn basic_position_numbers() {
    let mut p = BasicPosition::new("SYM");
    assert_eq!(p.symbol, "SYM");
    assert_eq!(as_decimal(&p.average_buy_value()), Decimal::ZERO);
    p.buy_quantity = dec(10, 0);
    p.sell_quantity = dec(4, 0);
    p.buy_value = dec(1000, 0);
    p.sell_value = dec(410, 0);
    assert_eq!(as_decimal(&p.net_quantity()), Decimal::new(6, 0));
    assert_eq!(as_decimal(&p.average_buy_value()), Decimal::new(100, 0));
    assert_eq!(as_decimal(&p.average_sell_value()), Decimal::new(1025, 1));
    // Positive value over zero quantity: the division fails.
    p.buy_quantity = Dec::zero();
    assert!(p.checked_average_buy_value().is_none());
    assert!(p.checked_net_quantity().is_some());
}

#[test]
fn positions_from_order_rows() {
    let rows = vec![
        OrderRecord {
            symbol: Some("AAA".into()),
            side: Some("BUY".into()),
            quantity: dec(10, 0),
            price: dec(100, 0),
            trigger_price: Dec::zero(),
            average_price: dec(99, 0),
        },
        OrderRecord {
            symbol: Some("BBB".into()),
            side: Some("sell".into()),
            quantity: dec(-5, 0),
            price: dec(25, 1),
            ..OrderRecord::default()
        },
        OrderRecord {
            symbol: Some("AAA".into()),
            side: Some("buy".into()),
            quantity: dec(2, 0),
            price: dec(90, 0),
            trigger_price: dec(95, 0),
            average_price: Dec::zero(),
        },
        OrderRecord { symbol: Some("CCC".into()), side: Some("hold".into()), ..OrderRecord::default() },
        OrderRecord { symbol: None, side: Some("buy".into()), quantity: dec(1, 0), ..OrderRecord::default() },
        OrderRecord { symbol: Some("DDD".into()), side: None, quantity: dec(1, 0), ..OrderRecord::default() },
    ];
    let ps = create_basic_positions_from_orders_dict(&rows);
    assert_eq!(ps.len(), 3);
    assert_eq!(ps[0].symbol, "AAA");
    assert_eq!(as_decimal(&ps[0].buy_quantity), Decimal::new(12, 0));
    assert_eq!(as_decimal(&ps[0].buy_value), Decimal::new(1190, 0));
    assert_eq!(ps[1].symbol, "BBB");
    assert_eq!(as_decimal(&ps[1].sell_quantity), Decimal::new(5, 0));
    assert_eq!(as_decimal(&ps[1].sell_value), Decimal::new(125, 1));
    assert_eq!(ps[2].symbol, "CCC");
    assert_eq!(as_decimal(&ps[2].buy_value), Decimal::ZERO);
    assert!(try_create_basic_positions(&rows).is_some());
}

#[test]
fn positions_overflow_is_none() {
    let big = dec((1i128 << 96) - 1, 0);
    let rows = vec![OrderRecord {
        symbol: Some("X".into()),
        side: Some("buy".into()),
        quantity: big,
        price: big,
        ..OrderRecord::default()
    }];
    assert!(try_create_basic_positions(&rows).is_none());
}

#[test]
fn persistence_error_message() {
    let e = PersistenceError::Backend("disk full".to_string());
    assert_eq!(e.message(), "backend error: disk full");
}

#[test]
fn side_and_order_type_codes() {
    assert_eq!(Side::from_code(1), Some(Side::Buy));
    assert_eq!(Side::from_code(-1), Some(Side::Sell));
    assert_eq!(Side::from_code(0), None);
    assert_eq!(OrderType::from_code(1), Some(OrderType::Market));
    assert_eq!(OrderType::from_code(2), Some(OrderType::Limit));
    assert_eq!(OrderType::from_code(3), Some(OrderType::Stop));
    assert_eq!(OrderType::from_code(4), None);
}
