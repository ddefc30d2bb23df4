use cli_frontend::condition::{evaluate_file_condition, is_truthy, parse_condition, Condition};
use cli_frontend::var_map::VarMap;

fn vars(pairs: &[(&str, &str)]) -> VarMap {
    let mut m = VarMap::new();
    for (k, v) in pairs {
        m.insert(k.to_string(), v.to_string());
    }
    m
}

#[test]
fn generator_test_is_truthy() {
    assert!(is_truthy("true"));
    assert!(is_truthy("True"));
    assert!(is_truthy("TRUE"));
    assert!(is_truthy("yes"));
    assert!(is_truthy("1"));
    assert!(!is_truthy("false"));
    assert!(!is_truthy("no"));
    assert!(!is_truthy("0"));
}

#[test]
fn renderer_test_is_truthy() {
    assert!(is_truthy("true"));
    assert!(is_truthy("TRUE"));
    assert!(is_truthy("yes"));
    assert!(is_truthy("YES"));
    assert!(is_truthy("1"));

    assert!(!is_truthy("false"));
    assert!(!is_truthy("no"));
    assert!(!is_truthy("0"));
    assert!(!is_truthy(""));
}

#[test]
fn test_evaluate_file_condition_always() {
    let variables = VarMap::new();
    assert!(evaluate_file_condition("always", &variables));
    assert!(evaluate_file_condition("default", &variables));
}

#[test]
fn test_evaluate_file_condition_boolean() {
    let mut variables = VarMap::new();
    variables.insert("with_tests".to_string(), "true".to_string());
    assert!(evaluate_file_condition("var_with_tests", &variables));

    variables.insert("with_tests".to_string(), "false".to_string());
    assert!(!evaluate_file_condition("var_with_tests", &variables));
}

#[test]
fn test_evaluate_file_condition_value_comparison() {
    let mut variables = VarMap::new();
    variables.insert("style".to_string(), "scss".to_string());
    assert!(evaluate_file_condition("var_style_scss", &variables));
    assert!(!evaluate_file_condition("var_style_css", &variables));
}

#[test]
fn truthy_condition_scenario() {
    assert!(evaluate_file_condition("var_with_tests", &vars(&[("with_tests", "true")])));
    assert!(!evaluate_file_condition("var_with_tests", &vars(&[("with_tests", "false")])));
    assert!(!evaluate_file_condition("var_with_tests", &vars(&[])));
}

#[test]
fn equality_condition_scenario() {
    assert!(evaluate_file_condition("var_style_scss", &vars(&[("style", "scss")])));
    assert!(!evaluate_file_condition("var_style_scss", &vars(&[("style", "css")])));
}

#[test]
fn multi_word_values_match_with_hyphens() {
    let v = vars(&[("style", "styled-components")]);
    assert!(evaluate_file_condition("var_style_styled_components", &v));
    let v = vars(&[("style", "styled_components")]);
    assert!(evaluate_file_condition("var_style_styled_components", &v));
}

#[test]
fn exact_name_takes_priority() {
    let v = vars(&[("with_tests", "no"), ("with", "tests")]);
    assert!(!evaluate_file_condition("var_with_tests", &v));
}

#[test]
fn unknown_conditions_are_false_not_errors() {
    let v = vars(&[("a", "b")]);
    for c in ["", "sometimes", "VAR_a", "var_", "   ", "alwayss"] {
        assert!(!evaluate_file_condition(c, &v));
    }
    assert!(!parse_condition("sometimes").is_recognized());
    assert!(evaluate_file_condition("  always  ", &v));
}

#[test]
fn parsed_condition_shapes() {
    assert_eq!(parse_condition("always"), Condition::Always);
    assert_eq!(parse_condition("var_style_scss"), Condition::Variable("style_scss".to_string()));
    assert_eq!(parse_condition("x"), Condition::Unrecognized("x".to_string()));
}
