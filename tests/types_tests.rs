use cli_frontend::types::{OutputPath, TemplateContent, TemplateName, TemplateNameError, TemplateType};
use std::path::PathBuf;

#[test]
fn test_template_name_valid() {
    assert!(TemplateName::new("component").is_ok());
    assert!(TemplateName::new("my-template").is_ok());
    assert!(TemplateName::new("hook_v2").is_ok());
    assert!(TemplateName::new("Component123").is_ok());
    assert!(TemplateName::new("test-template_v2").is_ok());
}

#[test]
fn test_template_name_invalid() {
    assert!(TemplateName::new("").is_err());
    assert!(TemplateName::new("my template").is_err());
    assert!(TemplateName::new("my/template").is_err());
    assert!(TemplateName::new("my\\template").is_err());
    assert!(TemplateName::new("my.template").is_err());
    assert!(TemplateName::new("my@template").is_err());
}

#[test]
fn test_template_name_as_str() {
    let name = TemplateName::new("component").unwrap();
    assert_eq!(name.as_str(), "component");
}

#[test]
fn test_template_name_display() {
    let name = TemplateName::new("component").unwrap();
    assert_eq!(name.to_string(), "component");
}

#[test]
fn test_template_name_as_ref() {
    let name = TemplateName::new("component").unwrap();
    let s: &str = name.as_ref();
    assert_eq!(s, "component");
}

#[test]
fn test_template_name_into_string() {
    let name = TemplateName::new("component").unwrap();
    let string: String = name.into_string();
    assert_eq!(string, "component");
}

#[test]
fn test_template_name_from() {
    let name = TemplateName::new("component").unwrap();
    let string: String = name.into();
    assert_eq!(string, "component");
}

#[test]
fn test_template_type_parse() {
    assert_eq!(TemplateType::parse("component"), TemplateType::Component);
    assert_eq!(TemplateType::parse("Component"), TemplateType::Component);
    assert_eq!(TemplateType::parse("COMPONENT"), TemplateType::Component);
    assert_eq!(TemplateType::parse("hook"), TemplateType::Hook);
    assert_eq!(TemplateType::parse("service"), TemplateType::Service);
    assert_eq!(TemplateType::parse("context"), TemplateType::Context);
    assert_eq!(TemplateType::parse("page"), TemplateType::Page);
    assert_eq!(TemplateType::parse("feature"), TemplateType::Feature);
    assert_eq!(TemplateType::parse("store"), TemplateType::Store);
    assert_eq!(TemplateType::parse("custom"), TemplateType::Custom("custom".to_string()));
}

#[test]
fn test_template_type_as_string() {
    assert_eq!(TemplateType::Component.as_string(), "component");
    assert_eq!(TemplateType::Hook.as_string(), "hook");
    assert_eq!(TemplateType::Service.as_string(), "service");
    assert_eq!(TemplateType::Context.as_string(), "context");
    assert_eq!(TemplateType::Page.as_string(), "page");
    assert_eq!(TemplateType::Feature.as_string(), "feature");
    assert_eq!(TemplateType::Store.as_string(), "store");
    assert_eq!(TemplateType::Custom("mytype".to_string()).as_string(), "mytype");
}

#[test]
fn test_template_type_display() {
    assert_eq!(TemplateType::Component.to_string(), "component");
    assert_eq!(TemplateType::Hook.to_string(), "hook");
    assert_eq!(TemplateType::Custom("test".to_string()).to_string(), "test");
}

#[test]
fn test_template_type_roundtrip() {
    let types = vec!["component", "hook", "service", "context", "page", "feature", "store"];
    for type_str in types {
        let template_type = TemplateType::parse(type_str);
        assert_eq!(template_type.as_string(), type_str);
    }
}

#[test]
fn template_name_errors() {
    assert_eq!(TemplateName::new("").unwrap_err(), TemplateNameError::Empty);
    assert_eq!(
        TemplateName::new("a b").unwrap_err(),
        TemplateNameError::InvalidCharacters("a b".to_string())
    );
}

#[test]
fn custom_type_keeps_spelling() {
    assert_eq!(TemplateType::parse("MyType"), TemplateType::Custom("MyType".to_string()));
}

#[test]
fn test_path_operations() {
    let path = PathBuf::from("./test");
    let path_with_extension = path.with_extension("txt");

    assert_eq!(path_with_extension.extension().unwrap(), "txt");
}

#[test]
fn output_path_and_content() {
    let p = OutputPath::new(PathBuf::from("out/dir"));
    assert_eq!(p.as_path(), std::path::Path::new("out/dir"));
    let c = TemplateContent::new("Hello {{name}}!".to_string());
    assert_eq!(c.as_str(), "Hello {{name}}!");
    let c2: TemplateContent = String::from("x").into();
    assert_eq!(c2.as_str(), "x");
}

#[test]
fn test_basic_functionality() {
    assert!(true);
}
