use engine::coerce::{coerce, JsonValue, RawValue};

fn empty_raw() -> RawValue {
    RawValue { text: None, int4: None, int8: None, boolean: None, timestamp: None }
}

#[test]
fn exec_row_scenario() {
    // A row {id: 1, active: true, created: "2024-01-01 00:00:00"}:
    // the id comes out a number, the flag a boolean, the timestamp a string.
    let id = RawValue { int4: Some(1), ..empty_raw() };
    assert_eq!(coerce(id), JsonValue::Num(1));

    let active = RawValue { boolean: Some(true), ..empty_raw() };
    assert_eq!(coerce(active), JsonValue::Bool(true));

    let created = RawValue { timestamp: Some("2024-01-01 00:00:00".to_string()), ..empty_raw() };
    assert_eq!(coerce(created), JsonValue::Str("2024-01-01 00:00:00".to_string()));
}

#[test]
fn same_raw_value_twice_gives_identical_json() {
    let make = || RawValue {
        text: Some("7".to_string()),
        int4: Some(7),
        int8: Some(7),
        boolean: None,
        timestamp: None,
    };
    assert_eq!(coerce(make()), coerce(make()));
}

#[test]
fn string_and_integer_resolve_to_string() {
    // Numeric-looking text stored in a text column must stay text.
    let v = RawValue { text: Some("42".to_string()), int4: Some(42), int8: Some(42), ..empty_raw() };
    assert_eq!(coerce(v), JsonValue::Str("42".to_string()));
}

#[test]
fn int8_wins_over_later_probes() {
    let v = RawValue { int8: Some(9_000_000_000), boolean: Some(true), ..empty_raw() };
    assert_eq!(coerce(v), JsonValue::Num(9_000_000_000));
}

#[test]
fn all_probes_failing_gives_null() {
    assert_eq!(coerce(empty_raw()), JsonValue::Null);
}
