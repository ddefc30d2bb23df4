use cli_frontend::manifest::{parse_template_config, TemplateConfig, TemplateMetadata};
use cli_frontend::options::{OptionMap, VariableOption};

#[test]
fn config_test_template_config_default() {
    let config = TemplateConfig::default();

    assert!(config.variables.is_empty());
    assert!(config.enable_timestamps);
    assert!(config.enable_uuid);
    assert!(config.file_filters.is_empty());
    assert!(config.options_metadata.is_empty());
    assert!(!config.environment.is_empty());
}

#[test]
fn mod_test_template_config_default() {
    let config = TemplateConfig::default();
    assert!(config.enable_timestamps);
    assert!(config.enable_uuid);
    assert!(config.variables.is_empty());
    assert!(config.file_filters.is_empty());
}

#[test]
fn test_template_metadata_default() {
    let metadata = TemplateMetadata::default();

    assert_eq!(metadata.name, "");
    assert_eq!(metadata.description, "");
}

#[test]
fn test_variable_option_creation() {
    let option = VariableOption {
        var_type: "boolean".to_string(),
        possible_values: vec!["true".to_string(), "false".to_string()],
        description: "Enable tests".to_string(),
    };

    assert_eq!(option.var_type, "boolean");
    assert_eq!(option.possible_values.len(), 2);
    assert_eq!(option.description, "Enable tests");
}

#[test]
fn test_template_config_with_variables() {
    let mut config = TemplateConfig::default();
    config.variables.insert("name".to_string(), "TestComponent".to_string());
    config.variables.insert("author".to_string(), "John Doe".to_string());

    assert_eq!(config.variables.len(), 2);
    assert_eq!(config.variables.get("name").unwrap(), "TestComponent");
    assert_eq!(config.variables.get("author").unwrap(), "John Doe");
}

#[test]
fn test_template_config_with_file_filters() {
    let mut config = TemplateConfig::default();
    config
        .file_filters
        .insert("$FILE_NAME.spec.tsx".to_string(), "var_with_tests".to_string());
    config
        .file_filters
        .insert("$FILE_NAME.styles.scss".to_string(), "var_style_scss".to_string());

    assert_eq!(config.file_filters.len(), 2);
    assert_eq!(config.file_filters.get("$FILE_NAME.spec.tsx").unwrap(), "var_with_tests");
}

#[test]
fn test_template_config_clone() {
    let mut config = TemplateConfig::default();
    config.variables.insert("test".to_string(), "value".to_string());

    let cloned = config.clone();
    assert_eq!(cloned.variables.get("test").unwrap(), "value");
}

#[test]
fn test_variable_option_default() {
    let option = VariableOption::default();

    assert_eq!(option.var_type, "");
    assert!(option.possible_values.is_empty());
    assert_eq!(option.description, "");
}

#[test]
fn test_template_metadata_with_values() {
    let metadata = TemplateMetadata {
        name: "Component Template".to_string(),
        description: "React component template with tests".to_string(),
    };

    assert_eq!(metadata.name, "Component Template");
    assert_eq!(metadata.description, "React component template with tests");
}

#[test]
fn test_variable_option_enum_type() {
    let option = VariableOption {
        var_type: "enum".to_string(),
        possible_values: vec![
            "scss".to_string(),
            "css".to_string(),
            "styled-components".to_string(),
        ],
        description: "Styling approach".to_string(),
    };

    assert_eq!(option.var_type, "enum");
    assert_eq!(option.possible_values.len(), 3);
    assert!(option.possible_values.contains(&"scss".to_string()));
    assert!(option.possible_values.contains(&"styled-components".to_string()));
}

#[test]
fn test_template_config_parsing() {
    let config_content = r#"
            # Test configuration
            environment=production
            enable_timestamps=false
            enable_uuid=true
            var_author=John Doe
            var_license=MIT
        "#;

    let config = parse_template_config(config_content);

    assert_eq!(config.environment, "production");
    assert_eq!(config.enable_timestamps, false);
    assert_eq!(config.enable_uuid, true);
    assert_eq!(config.variables.get("author"), Some(&"John Doe".to_string()));
    assert_eq!(config.variables.get("license"), Some(&"MIT".to_string()));
}

const COMPONENT_MANIFEST: &str = "[metadata]\nname=React Component\nname=Other\ndescription=\"Functional component\" # inline\n\n[options]\nstyle=scss\nstyle_options=scss, css,,styled-components\nstyle_description=Styling approach\nwith_tests=true\nwith_tests_type=boolean\n\n[files]\n$FILE_NAME.tsx=always\n$FILE_NAME.spec.tsx=var_with_tests\n$FILE_NAME.module.scss=var_style_scss\n[unknown]\nignored=1\n";

#[test]
fn manifest_sections_are_read() {
    let c = parse_template_config(COMPONENT_MANIFEST);
    assert_eq!(c.metadata.name, "React Component");
    assert_eq!(c.metadata.description, "Functional component");
    assert_eq!(c.variables.get("style").unwrap(), "scss");
    assert_eq!(c.variables.get("with_tests").unwrap(), "true");
    assert_eq!(c.variables.len(), 2);
    let style = c.options_metadata.get("style").unwrap();
    assert_eq!(style.possible_values, vec!["scss", "css", "styled-components"]);
    assert_eq!(style.description, "Styling approach");
    assert_eq!(c.options_metadata.get("with_tests").unwrap().var_type, "boolean");
    assert_eq!(c.file_filters.len(), 3);
    assert_eq!(c.file_filters.get("$FILE_NAME.spec.tsx").unwrap(), "var_with_tests");
    assert!(c.variables.get("ignored").is_none());
}

#[test]
fn empty_manifest_is_default() {
    let c = parse_template_config("");
    assert!(c.variables.is_empty());
    assert!(c.enable_timestamps);
    assert_eq!(c.environment, "development");
}

#[test]
fn option_map_keeps_first_position() {
    let mut m = OptionMap::new();
    m.put("a".to_string(), VariableOption::default());
    m.put("b".to_string(), VariableOption::default());
    m.put("a".to_string(), VariableOption { var_type: "boolean".to_string(), possible_values: vec![], description: String::new() });
    assert_eq!(m.len(), 2);
    assert_eq!(m.entry(0).0, "a");
    assert_eq!(m.entry(0).1.var_type, "boolean");
}
