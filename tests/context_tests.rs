use cli_frontend::clock::GenerationStamp;
use cli_frontend::context::{create_template_data, generate_boolean_helpers, RenderContext, TemplateDataBuilder, TemplateDataError};
use cli_frontend::manifest::{parse_template_config, TemplateConfig};
use cli_frontend::options::{OptionMap, VariableOption};
use cli_frontend::var_map::VarMap;

#[test]
fn test_template_data_builder_basic() {
    let data = TemplateDataBuilder::new().with_name("userProfile").build().unwrap();

    assert_eq!(data.get_text("name").unwrap(), "userProfile");
    assert_eq!(data.get_text("pascal_name").unwrap(), "UserProfile");
    assert_eq!(data.get_text("camel_name").unwrap(), "userProfile");
    assert_eq!(data.get_text("snake_name").unwrap(), "user_profile");
    assert_eq!(data.get_text("kebab_name").unwrap(), "user-profile");
    assert_eq!(data.get_text("hook_name").unwrap(), "useUserProfile");
    assert_eq!(data.get_text("context_name").unwrap(), "UserProfileContext");
}

#[test]
fn test_template_data_builder_with_environment() {
    let data = TemplateDataBuilder::new()
        .with_name("test")
        .with_environment("production")
        .build()
        .unwrap();

    assert_eq!(data.get_text("environment").unwrap(), "production");
}

#[test]
fn test_template_data_builder_with_custom_variables() {
    let mut variables = VarMap::new();
    variables.insert("author".to_string(), "John Doe".to_string());
    variables.insert("license".to_string(), "MIT".to_string());

    let data = TemplateDataBuilder::new().with_name("test").with_variables(variables).build().unwrap();

    assert_eq!(data.get_text("author").unwrap(), "John Doe");
    assert_eq!(data.get_text("license").unwrap(), "MIT");
}

#[test]
fn test_template_data_builder_timestamps_disabled() {
    let data = TemplateDataBuilder::new().with_name("test").with_timestamps(false).build().unwrap();

    assert_eq!(data.get_text("timestamp").unwrap(), "");
    assert_eq!(data.get_text("date").unwrap(), "");
}

#[test]
fn test_template_data_builder_missing_name() {
    let result = TemplateDataBuilder::new().build();

    assert!(result.is_err());
    assert!(matches!(result.unwrap_err(), TemplateDataError::MissingName));
}

#[test]
fn test_template_data_builder_uuid_disabled() {
    let data = TemplateDataBuilder::new().with_name("test").with_uuid(false).build().unwrap();

    assert_eq!(data.get_text("uuid").unwrap(), "");
    assert_eq!(data.get_text("uuid_simple").unwrap(), "");
}

#[test]
fn test_template_data_builder() {
    let mut variables = VarMap::new();
    variables.insert("author".to_string(), "John Doe".to_string());

    let data = TemplateDataBuilder::new()
        .with_name("userProfile")
        .with_environment("test")
        .with_variables(variables)
        .build()
        .unwrap();

    assert_eq!(data.get_text("name").unwrap(), "userProfile");
    assert_eq!(data.get_text("pascal_name").unwrap(), "UserProfile");
    assert_eq!(data.get_text("environment").unwrap(), "test");
    assert_eq!(data.get_text("hook_name").unwrap(), "useUserProfile");
    assert_eq!(data.get_text("author").unwrap(), "John Doe");
}

#[test]
fn test_create_template_data_basic() {
    let config = TemplateConfig::default();
    let stamp = GenerationStamp::now(config.enable_timestamps, config.enable_uuid);
    let data = create_template_data("MyComponent", &config, &stamp);

    assert_eq!(data.get_text("name").unwrap(), "MyComponent");
    assert_eq!(data.get_text("pascal_name").unwrap(), "MyComponent");
    assert_eq!(data.get_text("snake_name").unwrap(), "my_component");
    assert_eq!(data.get_text("kebab_name").unwrap(), "my-component");
    assert_eq!(data.get_text("camel_name").unwrap(), "myComponent");
    assert_eq!(data.get_text("upper_name").unwrap(), "MYCOMPONENT");
    assert_eq!(data.get_flag("generated"), Some(true));
    assert!(data.get_text("timestamp").is_some());
    assert!(data.get_text("uuid").is_some());
}

#[test]
fn test_create_template_data_with_variables() {
    let mut config = TemplateConfig::default();
    config.variables.insert("author".to_string(), "John Doe".to_string());
    config.variables.insert("version".to_string(), "1.0.0".to_string());

    let stamp = GenerationStamp::now(true, true);
    let data = create_template_data("TestComponent", &config, &stamp);

    assert_eq!(data.get_text("author").unwrap(), "John Doe");
    assert_eq!(data.get_text("version").unwrap(), "1.0.0");
    assert_eq!(data.get_text("name").unwrap(), "TestComponent");
}

#[test]
fn test_create_template_data_disabled_features() {
    let config = TemplateConfig { enable_timestamps: false, enable_uuid: false, ..Default::default() };

    let stamp = GenerationStamp::now(true, true);
    let data = create_template_data("TestComponent", &config, &stamp);

    assert_eq!(data.get_text("timestamp").unwrap(), "");
    assert_eq!(data.get_text("uuid").unwrap(), "");
    assert_eq!(data.get_text("name").unwrap(), "TestComponent");
}

#[test]
fn test_generate_boolean_helpers() {
    let mut variables = VarMap::new();
    variables.insert("style".to_string(), "scss".to_string());
    variables.insert("with_tests".to_string(), "true".to_string());

    let mut options_metadata = OptionMap::new();
    options_metadata.put(
        "style".to_string(),
        VariableOption {
            var_type: "enum".to_string(),
            possible_values: vec!["scss".to_string(), "css".to_string(), "none".to_string()],
            description: "Style approach".to_string(),
        },
    );
    options_metadata.put(
        "with_tests".to_string(),
        VariableOption {
            var_type: "boolean".to_string(),
            possible_values: vec![],
            description: "Include tests".to_string(),
        },
    );

    let mut data_map = RenderContext::new();
    generate_boolean_helpers(&variables, &options_metadata, &mut data_map);

    assert_eq!(data_map.get_flag("style_is_scss"), Some(true));
    assert_eq!(data_map.get_flag("style_is_css"), Some(false));
    assert_eq!(data_map.get_flag("style_is_none"), Some(false));

    assert_eq!(data_map.get_flag("with_tests_bool"), Some(true));
}

#[test]
fn test_generate_boolean_helpers_styled_components() {
    let mut variables = VarMap::new();
    variables.insert("style".to_string(), "styled-components".to_string());

    let mut options_metadata = OptionMap::new();
    options_metadata.put(
        "style".to_string(),
        VariableOption {
            var_type: "enum".to_string(),
            possible_values: vec!["scss".to_string(), "styled-components".to_string()],
            description: "Style approach".to_string(),
        },
    );

    let mut data_map = RenderContext::new();
    generate_boolean_helpers(&variables, &options_metadata, &mut data_map);

    assert_eq!(data_map.get_flag("style_is_styled_components"), Some(true));
    assert_eq!(data_map.get_flag("style_is_scss"), Some(false));
}

#[test]
fn enum_flags_from_manifest_scenario() {
    let mut config = parse_template_config("[options]\nstyle=scss\nstyle_options=scss,css,styled-components\n");
    config.variables.insert("style".to_string(), "styled-components".to_string());
    let stamp = GenerationStamp::empty();
    let data = create_template_data("Button", &config, &stamp);
    assert_eq!(data.get_flag("style_is_styled_components"), Some(true));
    assert_eq!(data.get_flag("style_is_scss"), Some(false));
    assert_eq!(data.get_flag("style_is_css"), Some(false));
}

#[test]
fn variables_cannot_replace_name_fields() {
    let mut config = TemplateConfig::default();
    config.variables.insert("hook_name".to_string(), "useSomethingElse".to_string());
    config.variables.insert("environment".to_string(), "staging".to_string());
    let data = create_template_data("user", &config, &GenerationStamp::empty());
    assert_eq!(data.get_text("hook_name").unwrap(), "useUser");
    assert_eq!(data.get_text("environment").unwrap(), "staging");
}

#[test]
fn one_stamp_for_every_file_of_a_run() {
    let config = TemplateConfig::default();
    let stamp = GenerationStamp::now(true, true);
    let a = create_template_data("A", &config, &stamp);
    let b = create_template_data("B", &config, &stamp);
    assert_eq!(a.get_text("uuid"), b.get_text("uuid"));
    assert_eq!(a.get_text("timestamp"), b.get_text("timestamp"));
    assert_eq!(stamp.uuid.len(), 36);
    assert_eq!(stamp.uuid_simple.len(), 32);
    assert!(!stamp.timestamp.is_empty());
    assert_eq!(stamp.date.len(), 10);
}

#[test]
fn boolean_flag_without_value_is_absent() {
    let mut options = OptionMap::new();
    options.put(
        "with_tests".to_string(),
        VariableOption { var_type: "boolean".to_string(), possible_values: vec![], description: String::new() },
    );
    let mut data = RenderContext::new();
    generate_boolean_helpers(&VarMap::new(), &options, &mut data);
    assert_eq!(data.get_flag("with_tests_bool"), None);
    assert_eq!(data.len(), 0);
}
