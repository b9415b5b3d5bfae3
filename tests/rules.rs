use apply_inovelli_defaults::config::{evaluate, first_match, ConfigClause};
use apply_inovelli_defaults::json::{JsonNumber, JsonValue};

fn text(s: &str) -> JsonValue {
    JsonValue::Str(s.to_string())
}

fn num(n: u64) -> JsonValue {
    JsonValue::Number(JsonNumber::PosInt(n))
}

fn fields(entries: Vec<(&str, JsonValue)>) -> Vec<(String, JsonValue)> {
    entries.into_iter().map(|(k, v)| (k.to_string(), v)).collect()
}

fn clause(name: Option<&str>, condition: Vec<(&str, JsonValue)>, values: Vec<(&str, JsonValue)>) -> ConfigClause {
    ConfigClause::new(name.map(|n| n.to_string()), fields(condition), fields(values))
}

#[test]
fn clause_matches_when_all_conditions_hold() {
    let c = clause(Some("on"), vec![("state", text("ON")), ("mode", num(1))], vec![("brightness", num(100))]);
    let payload = fields(vec![("mode", num(1)), ("state", text("ON")), ("extra", JsonValue::Null)]);
    let (name, values) = c.update_for(&payload).expect("should match");
    assert_eq!(name, "on");
    assert_eq!(values.len(), 1);
    assert_eq!(values[0].0, "brightness");
    assert!(values[0].1.equals(&num(100)));
}

#[test]
fn clause_fails_on_missing_or_different_field() {
    let c = clause(Some("on"), vec![("state", text("ON")), ("mode", num(1))], vec![("brightness", num(100))]);
    assert!(c.update_for(&fields(vec![("state", text("ON"))])).is_none());
    assert!(c.update_for(&fields(vec![("state", text("OFF")), ("mode", num(1))])).is_none());
}

#[test]
fn no_coercion_between_number_and_text() {
    let c = clause(None, vec![("level", num(0))], vec![("x", num(1))]);
    assert!(c.update_for(&fields(vec![("level", text("0"))])).is_none());
    assert!(c.update_for(&fields(vec![("level", JsonValue::Number(JsonNumber::Float(0)))])).is_none());
    assert!(c.update_for(&fields(vec![("level", num(0))])).is_some());
}

#[test]
fn nested_values_compare_structurally() {
    let nested = || JsonValue::Object(fields(vec![("a", JsonValue::Array(vec![num(1), JsonValue::Bool(true)]))]));
    let c = clause(None, vec![("cfg", nested())], vec![("x", num(1))]);
    assert!(c.update_for(&fields(vec![("cfg", nested())])).is_some());
    let other = JsonValue::Object(fields(vec![("a", JsonValue::Array(vec![num(1), JsonValue::Bool(false)]))]));
    assert!(c.update_for(&fields(vec![("cfg", other)])).is_none());
}

#[test]
fn unnamed_clause_reports_empty_name() {
    let c = clause(None, vec![], vec![("x", num(1))]);
    let (name, _) = c.update_for(&fields(vec![])).expect("empty condition matches");
    assert_eq!(name, "");
}

#[test]
fn empty_condition_matches_every_payload() {
    let c = clause(Some("always"), vec![], vec![("x", num(1))]);
    assert!(c.update_for(&fields(vec![])).is_some());
    assert!(c.update_for(&fields(vec![("state", text("OFF")), ("n", num(7))])).is_some());
}

#[test]
fn first_matching_clause_wins() {
    let clauses = vec![
        clause(Some("specific"), vec![("state", text("ON"))], vec![("brightness", num(100))]),
        clause(Some("catch_all"), vec![], vec![("brightness", num(10))]),
    ];
    let (name, values) = evaluate(&clauses, &fields(vec![("state", text("ON"))])).unwrap();
    assert_eq!(name, "specific");
    assert!(values[0].1.equals(&num(100)));
    let (name, _) = evaluate(&clauses, &fields(vec![("state", text("OFF"))])).unwrap();
    assert_eq!(name, "catch_all");
    assert_eq!(first_match(&clauses, &fields(vec![("state", text("OFF"))])), Some(1));
}

#[test]
fn no_clause_matches_gives_none() {
    let clauses = vec![
        clause(Some("a"), vec![("state", text("ON"))], vec![("x", num(1))]),
        clause(Some("b"), vec![("state", text("DIM"))], vec![("x", num(2))]),
    ];
    assert!(evaluate(&clauses, &fields(vec![("state", text("OFF"))])).is_none());
    assert!(evaluate(&Vec::new(), &fields(vec![("state", text("OFF"))])).is_none());
}

#[test]
fn duplicate_copies_structure() {
    let v = JsonValue::Array(vec![text("a"), JsonValue::Object(fields(vec![("k", JsonValue::Null)]))]);
    let c = v.duplicate();
    assert!(c.equals(&v));
    assert!(!c.equals(&JsonValue::Array(vec![text("a")])));
}
