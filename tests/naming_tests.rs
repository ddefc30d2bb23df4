use cli_frontend::naming::{
    apply_smart_filename_replacements, apply_smart_replacements, is_camel_case, is_kebab_case,
    is_pascal_case, is_snake_case, process_smart_names, to_camel_case, to_kebab_case,
    to_pascal_case, to_snake_case,
};
use cli_frontend::smart_naming::SmartNaming;

#[test]
fn test_smart_names_processing() {
    let naming = SmartNaming::new();
    let result = naming.process_smart_names("user");

    assert_eq!(result.hook_name, "useUser");
    assert_eq!(result.context_name, "UserContext");
    assert_eq!(result.provider_name, "UserProvider");
    assert_eq!(result.page_name, "UserPage");
}

#[test]
fn test_smart_names_with_existing_patterns() {
    let naming = SmartNaming::new();

    let result = naming.process_smart_names("useAuth");
    assert_eq!(result.hook_name, "useAuth");

    let result = naming.process_smart_names("AuthContext");
    assert_eq!(result.context_name, "AuthContext");
}

#[test]
fn test_case_conversions() {
    let naming = SmartNaming::new();

    assert_eq!(naming.to_pascal_case("user_profile"), "UserProfile");
    assert_eq!(naming.to_pascal_case("my-component"), "MyComponent");
    assert_eq!(naming.to_camel_case("UserProfile"), "userProfile");
    assert_eq!(naming.to_snake_case("UserProfile"), "user_profile");
    assert_eq!(naming.to_kebab_case("UserProfile"), "user-profile");
}

#[test]
fn test_smart_replacements() {
    let naming = SmartNaming::new();
    let smart_names = naming.process_smart_names("user");

    let content = "export const use$FILE_NAME = () => {}; export const $FILE_NAMEContext = {};";
    let result = naming.apply_smart_replacements(content, "user", &smart_names);

    assert!(result.contains("useUser"));
    assert!(result.contains("UserContext"));
}

#[test]
fn test_filename_pattern_processing() {
    let naming = SmartNaming::new();

    let pattern = "use{name}.ts";
    let result = naming.process_filename_pattern(pattern, "auth");
    assert_eq!(result, "useAuth.ts");

    let pattern = "{name}Context.tsx";
    let result = naming.process_filename_pattern(pattern, "user");
    assert_eq!(result, "UserContext.tsx");
}

#[test]
fn test_ensure_suffix() {
    let naming = SmartNaming::new();

    assert_eq!(naming.ensure_suffix("User", "Context"), "UserContext");
    assert_eq!(naming.ensure_suffix("AuthContext", "Context"), "AuthContext");
    assert_eq!(naming.ensure_suffix("Authcontext", "Context"), "Authcontext");
}

#[test]
fn test_to_pascal_case() {
    assert_eq!(to_pascal_case("hello_world"), "HelloWorld");
    assert_eq!(to_pascal_case("hello-world"), "HelloWorld");
    assert_eq!(to_pascal_case("HelloWorld"), "HelloWorld");
    assert_eq!(to_pascal_case("hello world"), "HelloWorld");
}

#[test]
fn test_to_camel_case() {
    assert_eq!(to_camel_case("hello_world"), "helloWorld");
    assert_eq!(to_camel_case("HelloWorld"), "helloWorld");
    assert_eq!(to_camel_case("hello-world"), "helloWorld");
}

#[test]
fn test_to_snake_case() {
    assert_eq!(to_snake_case("HelloWorld"), "hello_world");
    assert_eq!(to_snake_case("helloWorld"), "hello_world");
    assert_eq!(to_snake_case("hello-world"), "hello_world");
}

#[test]
fn test_to_kebab_case() {
    assert_eq!(to_kebab_case("HelloWorld"), "hello-world");
    assert_eq!(to_kebab_case("helloWorld"), "hello-world");
    assert_eq!(to_kebab_case("hello_world"), "hello-world");
}

#[test]
fn test_process_smart_names() {
    let names = process_smart_names("auth");
    assert_eq!(names.hook_name, "useAuth");
    assert_eq!(names.context_name, "AuthContext");
    assert_eq!(names.provider_name, "AuthProvider");
    assert_eq!(names.page_name, "AuthPage");
}

#[test]
fn test_string_transformations() {
    let naming = SmartNaming::new();
    let test_name = "TestComponent";

    assert_eq!(naming.to_pascal_case(test_name), "TestComponent");
    assert_eq!(naming.to_camel_case(test_name), "testComponent");
    assert_eq!(naming.to_snake_case(test_name), "test_component");
    assert_eq!(naming.to_kebab_case(test_name), "test-component");
}

#[test]
fn test_smart_name_processing() {
    let naming = SmartNaming::new();
    let processed = naming.process_smart_names("user");

    assert_eq!(processed.hook_name, "useUser");
    assert_eq!(processed.context_name, "UserContext");
    assert_eq!(processed.provider_name, "UserProvider");
    assert_eq!(processed.page_name, "UserPage");
}

#[test]
fn name_set_of_user_scenario() {
    let names = process_smart_names("user");
    assert_eq!(names.hook_name, "useUser");
    assert_eq!(names.context_name, "UserContext");
    assert_eq!(names.provider_name, "UserProvider");
    assert_eq!(names.page_name, "UserPage");
}

#[test]
fn hook_name_kept_for_use_auth() {
    assert_eq!(process_smart_names("useAuth").hook_name, "useAuth");
    assert_eq!(SmartNaming::new().process_smart_names("useAuth").hook_name, "useAuth");
}

#[test]
fn user_is_not_read_as_a_hook() {
    assert_eq!(process_smart_names("user").hook_name, "useUser");
    assert_eq!(process_smart_names("username").hook_name, "useUsername");
}

#[test]
fn case_conversion_scenario() {
    assert_eq!(to_pascal_case("hello_world"), "HelloWorld");
    assert_eq!(to_snake_case("HelloWorld"), "hello_world");
    assert_eq!(to_kebab_case("HelloWorld"), "hello-world");
    assert_eq!(to_camel_case("hello_world"), "helloWorld");
}

#[test]
fn empty_input_gives_empty_output() {
    assert_eq!(to_pascal_case(""), "");
    assert_eq!(to_camel_case(""), "");
    assert_eq!(to_snake_case(""), "");
    assert_eq!(to_kebab_case(""), "");
    let naming = SmartNaming::new();
    assert_eq!(naming.to_pascal_case(""), "");
    assert_eq!(naming.to_snake_case(""), "");
}

#[test]
fn separators_are_dropped() {
    assert_eq!(to_pascal_case("--my__great  thing--"), "MyGreatThing");
    assert_eq!(to_snake_case("My Great-Thing"), "my_great_thing");
}

#[test]
fn pascal_twice_is_pascal_once() {
    for x in ["hello_world", "HelloWorld", "a-b-c", "user profile", "", "X", "abc1_def"] {
        let once = to_pascal_case(x);
        assert_eq!(to_pascal_case(&once), once);
        let naming = SmartNaming::new();
        let plain_once = naming.to_pascal_case(x);
        assert_eq!(naming.to_pascal_case(&plain_once), plain_once);
    }
}

#[test]
fn pascal_not_idempotent_after_leading_digit() {
    let once = to_pascal_case("1a_b");
    assert_eq!(once, "1aB");
    assert_eq!(to_pascal_case(&once), "1ab");
}

#[test]
fn kebab_of_dashed_snake_is_kebab() {
    for x in ["HelloWorld", "hello_world", "my-component", "userProfile", "A b C"] {
        let dashed = to_snake_case(x).replace('_', "-");
        assert_eq!(to_kebab_case(&dashed), to_kebab_case(x));
    }
}

#[test]
fn hook_name_twice_is_stable() {
    for x in ["user", "useAuth", "auth_service", "UserProfile"] {
        let once = process_smart_names(x).hook_name;
        assert_eq!(process_smart_names(&once).hook_name, once);
        assert!(!once.starts_with("useuse"));
    }
}

#[test]
fn provider_strips_context_suffix() {
    assert_eq!(process_smart_names("AuthContext").provider_name, "AuthProvider");
    assert_eq!(process_smart_names("authprovider").provider_name, "authprovider");
    assert_eq!(process_smart_names("HomePage").page_name, "HomePage");
}

#[test]
fn sentinel_replacement_order() {
    let names = process_smart_names("user");
    let text = "use$FILE_NAME $FILE_NAMEContext $FILE_NAMEProvider $FILE_NAMEPage $FILE_NAME";
    assert_eq!(
        apply_smart_replacements(text, "user", &names),
        "useUser UserContext UserProvider UserPage user"
    );
    assert_eq!(
        apply_smart_filename_replacements("$FILE_NAME.tsx", "user", &names),
        "User.tsx"
    );
}

#[test]
fn case_detection() {
    assert!(is_pascal_case("HelloWorld"));
    assert!(!is_pascal_case("hello_world"));
    assert!(is_camel_case("helloWorld"));
    assert!(is_snake_case("hello_world"));
    assert!(!is_snake_case("123"));
    assert!(is_kebab_case("hello-world"));
    assert!(!is_kebab_case(""));
}

#[test]
fn unicode_case_mapping_is_used() {
    assert_eq!(to_pascal_case("élan_vital"), "ÉlanVital");
    assert_eq!(to_snake_case("ÉlanVital"), "élan_vital");
}

#[test]
fn words_are_lowered_after_their_first_letter() {
    assert_eq!(to_pascal_case("HELLO_WORLD"), "HelloWorld");
    assert_eq!(SmartNaming::new().to_pascal_case("HELLO WORLD"), "HelloWorld");
    assert_eq!(to_camel_case("HELLO_WORLD"), "helloWorld");
}
