use cli_frontend::architecture::{architecture_file_name, choose_architecture_source, is_feature_template, plan_feature_files, ArchitectureSource, ArchitectureStructure};
use cli_frontend::cli::Args;
use cli_frontend::config::{expand_path, parse_ini, to_ini, Config};
use cli_frontend::listing::{list_templates, DirEntryInfo};
use std::path::PathBuf;

#[test]
fn test_config_default() {
    let config = Config::default();
    assert_eq!(config.default_type(), "component");
    assert!(config.create_folder());
    assert!(config.enable_hooks());
    assert_eq!(config.default_architecture(), "screaming-architecture");
}

#[test]
fn test_config_getters() {
    let config = Config::default();
    let _dt: &str = config.default_type();
    let _cf: bool = config.create_folder();
    let _eh: bool = config.enable_hooks();
    let _td: &PathBuf = config.templates_dir();
    let _od: &PathBuf = config.output_dir();
    let _ad: &PathBuf = config.architectures_dir();
    let _da: &str = config.default_architecture();
}

#[test]
fn test_find_templates_directory() {
    let templates_dir = Config::find_templates_directory();
    assert!(templates_dir.to_str().is_some());
}

#[test]
fn test_config_module() {
    let templates_dir = Config::find_templates_directory();
    assert!(templates_dir.as_os_str().len() > 0, "Should return a valid path");
}

#[test]
fn test_parse_ini_basic() {
    let content = r#"
# Comment
default_type=component
create_folder=true
templates_dir=/path/to/templates
"#;

    let pairs = parse_ini(content);
    assert_eq!(pairs.len(), 3);
    assert_eq!(pairs[0], ("default_type".to_string(), "component".to_string()));
    assert_eq!(pairs[1], ("create_folder".to_string(), "true".to_string()));
}

#[test]
fn test_parse_ini_quoted_values() {
    let content = r#"
default_type="component"
templates_dir='/path/to/templates'
"#;

    let pairs = parse_ini(content);
    assert_eq!(pairs[0].1, "component");
    assert_eq!(pairs[1].1, "/path/to/templates");
}

#[test]
fn test_expand_path_regular() {
    let path = expand_path("/usr/local/templates").unwrap();
    assert_eq!(path, PathBuf::from("/usr/local/templates"));
}

#[test]
fn test_expand_path_tilde() {
    if dirs::home_dir().is_some() {
        let path = expand_path("~/templates");
        assert!(path.is_ok());
        let path = path.unwrap();
        assert!(path.to_str().unwrap().contains("templates"));
        assert!(!path.to_str().unwrap().starts_with('~'));
    }
}

#[test]
fn settings_text_round_trip() {
    let text = to_ini("hook", false, true, "/t", "/o", "/a", "clean");
    assert!(text.starts_with("# CLI Frontend Generator Configuration\n"));
    let pairs = parse_ini(&text);
    assert_eq!(pairs[0], ("default_type".to_string(), "hook".to_string()));
    assert_eq!(pairs[1], ("create_folder".to_string(), "false".to_string()));
    let config = Config::from_ini(&text).unwrap();
    assert_eq!(config.default_type(), "hook");
    assert!(!config.create_folder());
    assert!(config.enable_hooks());
    assert_eq!(config.default_architecture(), "clean");
    assert_eq!(config.output_dir(), &PathBuf::from("/o"));
}

#[test]
fn unknown_flag_value_reads_as_true() {
    let config = Config::from_ini("create_folder=nope\n").unwrap();
    assert!(config.create_folder());
}

#[test]
fn architecture_manifest_choice() {
    assert_eq!(architecture_file_name("default"), "default.json");
    assert_eq!(architecture_file_name("clean-architecture"), "clean-architecture.json");
    assert_eq!(choose_architecture_source("x", true, true), Ok(ArchitectureSource::Requested));
    assert_eq!(choose_architecture_source("x", false, true), Ok(ArchitectureSource::Default));
    let err = choose_architecture_source("x", false, false).unwrap_err();
    assert_eq!(err.architecture, "x");
    assert!(is_feature_template("feature"));
    assert!(!is_feature_template("component"));
}

#[test]
fn feature_part_plan() {
    let entry = ArchitectureStructure {
        path: "hooks".to_string(),
        template: "hook".to_string(),
        filename_pattern: "use{name}".to_string(),
        description: "Hooks".to_string(),
    };
    let files = vec!["use$FILE_NAME.ts".to_string(), ".conf".to_string(), "sub\\$FILE_NAMEContext.tsx".to_string()];
    let plan = plan_feature_files(&entry, &files, "auth");
    assert_eq!(plan.len(), 2);
    assert_eq!(plan[0].output, "hooks/useAuth.ts");
    assert_eq!(plan[1].source, "sub/$FILE_NAMEContext.tsx");
    assert_eq!(plan[1].output, "hooks/AuthContext.tsx");
}

fn entry(name: &str, is_dir: bool) -> DirEntryInfo {
    DirEntryInfo { name: name.to_string(), is_dir }
}

#[test]
fn listings_are_sorted_and_filtered() {
    let entries = vec![
        entry("hook", true),
        entry("component", true),
        entry(".hidden", true),
        entry("architectures", true),
        entry("readme.md", false),
    ];
    assert_eq!(Args::discover_templates(&entries), vec!["component", "feature", "hook"]);
    assert_eq!(list_templates(&entries), vec!["architectures", "component", "hook"]);
    let archs = vec![
        entry("mvc.json", false),
        entry("default.json", false),
        entry("clean.json", false),
        entry(".x.json", false),
        entry("notes.txt", false),
        entry("dir.json", true),
    ];
    assert_eq!(Args::discover_architectures(&archs), vec!["clean", "mvc"]);
}

#[test]
fn var_overrides() {
    let args = Args {
        name: None,
        template_type: None,
        architecture: None,
        no_folder: false,
        output_dir: None,
        config: None,
        list: false,
        vars: vec!["style=scss".to_string(), " with_tests = false ".to_string(), "bad".to_string(), "style=css".to_string()],
        describe: None,
    };
    let vars = args.parse_vars();
    assert_eq!(vars.len(), 2);
    assert_eq!(vars.get("style").unwrap(), "css");
    assert_eq!(vars.get("with_tests").unwrap(), "false");
    assert_eq!(args.malformed_vars(), vec!["bad"]);
}
