use cli_frontend::manifest::parse_template_config;
use cli_frontend::plan::{determine_output_path, plan_template_files, prepare_content};
use std::collections::BTreeSet;
use std::path::Path;

#[test]
fn test_determine_output_path_basic() {
    let base = "output/$FILE_NAME.tsx";
    let name = "MyComponent";

    let result = determine_output_path(base, name);
    assert_eq!(Path::new(&result).file_name().unwrap(), "MyComponent.tsx");
}

#[test]
fn test_determine_output_path_with_replacements() {
    let base = "output/use$FILE_NAME.ts";
    let name = "MyHook";

    let result = determine_output_path(base, name);
    assert_eq!(Path::new(&result).file_name().unwrap(), "useMyHook.ts");
}

const MANIFEST: &str = "[options]\nstyle=scss\nwith_tests=false\n[files]\n$FILE_NAME.tsx=always\n$FILE_NAME.spec.tsx=var_with_tests\n$FILE_NAME.module.scss=var_style_scss\n$FILE_NAME.styled.ts=var_style_styled_components\n$FILE_NAME.odd.ts=sometimes\n";

fn files() -> Vec<String> {
    [
        ".conf",
        "$FILE_NAME.tsx",
        "$FILE_NAME.spec.tsx",
        "$FILE_NAME.module.scss",
        "$FILE_NAME.styled.ts",
        "$FILE_NAME.odd.ts",
        "index.ts",
        "hooks\\use$FILE_NAME.ts",
    ]
    .iter()
    .map(|s| s.to_string())
    .collect()
}

#[test]
fn plan_applies_rules_and_names() {
    let config = parse_template_config(MANIFEST);
    let plan = plan_template_files(&files(), &config, "button");
    let outputs: Vec<&str> = plan.iter().map(|f| f.output.as_str()).collect();
    assert_eq!(outputs, vec!["Button.tsx", "Button.module.scss", "index.ts", "hooks/useButton.ts"]);
    assert_eq!(plan[3].source, "hooks/use$FILE_NAME.ts");
}

#[test]
fn plan_is_the_same_in_any_order() {
    let config = parse_template_config(MANIFEST);
    let mut reversed = files();
    reversed.reverse();
    let a: BTreeSet<String> = plan_template_files(&files(), &config, "button").into_iter().map(|f| f.output).collect();
    let b: BTreeSet<String> = plan_template_files(&reversed, &config, "button").into_iter().map(|f| f.output).collect();
    assert_eq!(a, b);
    let again: BTreeSet<String> = plan_template_files(&files(), &config, "button").into_iter().map(|f| f.output).collect();
    assert_eq!(a, again);
}

#[test]
fn no_rules_means_every_file() {
    let config = parse_template_config("");
    let plan = plan_template_files(&files(), &config, "x");
    assert_eq!(plan.len(), 7);
}

#[test]
fn content_sentinels_use_the_raw_name() {
    assert_eq!(
        prepare_content("export function use$FILE_NAME() { return $FILE_NAME; }", "auth"),
        "export function useAuth() { return auth; }"
    );
}
