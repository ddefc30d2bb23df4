use cli_frontend::describe::{describe_file_rules, format_condition, full_example, timestamp_format, usage_examples, TimestampFormat};
use cli_frontend::file_system::FileSystem;
use cli_frontend::manifest::parse_template_config;

#[test]
fn test_format_condition_always() {
    let result = format_condition("always");
    assert_eq!(result, "(always)");
}

#[test]
fn test_format_condition_var_boolean() {
    let result = format_condition("var_with_tests");
    assert_eq!(result, "(--var with=true)");
}

#[test]
fn test_format_condition_var_value() {
    let result = format_condition("var_style_scss");
    assert_eq!(result, "(--var style=scss)");
}

#[test]
fn test_format_condition_multiword() {
    let result = format_condition("var_with_styled_components");
    assert_eq!(result, "(--var with=styled-components)");
}

#[test]
fn test_format_condition_single_word() {
    let result = format_condition("var_typescript");
    assert_eq!(result, "(--var typescript=true)");
}

#[test]
fn test_format_condition_no_var_prefix() {
    let result = format_condition("default");
    assert_eq!(result, "(default)");
}

#[test]
fn test_format_condition_complex_multiword() {
    let result = format_condition("var_architecture_clean");
    assert_eq!(result, "(--var architecture=clean)");
}

#[test]
fn test_format_condition_with_stories() {
    let result = format_condition("var_with_stories");
    assert_eq!(result, "(--var with=true)");
}

#[test]
fn split_at_last_underscore() {
    assert_eq!(format_condition("var_a_b_c"), "(--var a_b=c)");
}

#[test]
fn timestamp_formats() {
    assert_eq!(timestamp_format(None), TimestampFormat::Iso);
    assert_eq!(timestamp_format(Some("ISO")), TimestampFormat::Iso);
    assert_eq!(timestamp_format(Some("date")), TimestampFormat::Date);
    assert_eq!(timestamp_format(Some("time")), TimestampFormat::Time);
    assert_eq!(timestamp_format(Some("datetime")), TimestampFormat::DateTime);
    assert_eq!(timestamp_format(Some("unix")), TimestampFormat::Unix);
    assert_eq!(timestamp_format(Some("weird")), TimestampFormat::Iso);
}

#[test]
fn usage_examples_booleans_then_enums() {
    let c = parse_template_config(
        "[options]\nstyle=scss\nstyle_options=scss,css\nwith_tests=true\nwith_tests_type=boolean\nsize_options=s,m,l\nflag_type=boolean\n",
    );
    let ex = usage_examples(&c.options_metadata, &c.variables);
    let ex: Vec<(&str, &str)> = ex.iter().map(|(a, b)| (a.as_str(), b.as_str())).collect();
    assert_eq!(ex, vec![("with_tests", "false"), ("flag", "true"), ("style", "css")]);
    let full = full_example(&c.options_metadata);
    let full: Vec<(&str, &str)> = full.iter().map(|(a, b)| (a.as_str(), b.as_str())).collect();
    assert_eq!(full, vec![("style", "scss"), ("with_tests", "true"), ("size", "s")]);
}

#[test]
fn template_exists_checks_the_directory() {
    let fs = FileSystem::new();
    assert!(!fs.template_exists(std::path::Path::new("/nonexistent-dir-for-test"), "component"));
    assert!(fs.template_exists(std::path::Path::new("/"), "tmp") == std::path::Path::new("/tmp").exists());
}

#[test]
fn file_rules_grouped_and_sorted() {
    let c = parse_template_config(
        "[files]\n$FILE_NAME.tsx=always\nindex.ts=always\n$FILE_NAME.spec.tsx=var_with_tests\n$FILE_NAME.module.scss=var_style_scss\nREADME.md=default\n",
    );
    let (always, default, conditional) = describe_file_rules(&c.file_filters);
    assert_eq!(always, vec!["ComponentName.tsx", "index.ts"]);
    assert_eq!(default, vec!["README.md"]);
    assert_eq!(
        conditional,
        vec![
            ("ComponentName.module.scss".to_string(), "(--var style=scss)".to_string()),
            ("ComponentName.spec.tsx".to_string(), "(--var with=true)".to_string()),
        ]
    );
}
