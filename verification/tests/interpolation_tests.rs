use stowaway::config::VariableMap;
use stowaway::interpolation::{replace_all_chars, Interpolator, VariableInterpolator};

fn chars(s: &str) -> Vec<char> {
    s.chars().collect()
}

#[test]
fn test_simple_interpolation() {
    let interpolator = VariableInterpolator;
    let mut variables = VariableMap::new();
    variables.insert("username".to_string(), "testuser".to_string());
    variables.insert("editor".to_string(), "vim".to_string());

    let content = "User: @username@, Editor: @editor@";
    let result = interpolator.interpolate(content, &variables).unwrap();

    assert_eq!(result, "User: testuser, Editor: vim");
}

#[test]
fn test_no_variables() {
    let interpolator = VariableInterpolator;
    let variables = VariableMap::new();

    let content = "No variables here";
    let result = interpolator.interpolate(content, &variables).unwrap();

    assert_eq!(result, "No variables here");
}

#[test]
fn test_missing_variable() {
    let interpolator = VariableInterpolator;
    let variables = VariableMap::new();

    let content = "Missing: @missing@";
    let result = interpolator.interpolate(content, &variables).unwrap();

    assert_eq!(result, "Missing: @missing@");
}

#[test]
fn test_multiple_same_variable() {
    let interpolator = VariableInterpolator;
    let mut variables = VariableMap::new();
    variables.insert("name".to_string(), "test".to_string());

    let content = "@name@ and @name@ again";
    let result = interpolator.interpolate(content, &variables).unwrap();

    assert_eq!(result, "test and test again");
}

#[test]
fn unknown_placeholder_kept_beside_known_one() {
    let interpolator = VariableInterpolator;
    let mut variables = VariableMap::new();
    variables.insert("username".to_string(), "testuser".to_string());
    let result = interpolator
        .interpolate("User: @username@\nMissing: @nonexistent@", &variables)
        .unwrap();
    assert_eq!(result, "User: testuser\nMissing: @nonexistent@");
}

#[test]
fn text_without_marker_is_unchanged() {
    let interpolator = VariableInterpolator;
    let mut variables = VariableMap::new();
    variables.insert("x".to_string(), "y".to_string());
    let result = interpolator.interpolate("plain text", &variables).unwrap();
    assert_eq!(result, "plain text");
}

#[test]
fn replace_all_is_left_to_right_and_non_overlapping() {
    assert_eq!(replace_all_chars(&chars("aaaa"), &chars("aa"), &chars("b")), "bb");
    assert_eq!(replace_all_chars(&chars("aaa"), &chars("aa"), &chars("b")), "ba");
    assert_eq!(replace_all_chars(&chars(""), &chars("@x@"), &chars("y")), "");
    assert_eq!(replace_all_chars(&chars("@x@@x@"), &chars("@x@"), &chars("")), "");
}

#[test]
fn variables_apply_in_insertion_order() {
    let interpolator = VariableInterpolator;
    let mut variables = VariableMap::new();
    variables.insert("a".to_string(), "@b@".to_string());
    variables.insert("b".to_string(), "z".to_string());
    assert_eq!(interpolator.interpolate("@a@", &variables).unwrap(), "z");

    let mut reversed = VariableMap::new();
    reversed.insert("b".to_string(), "z".to_string());
    reversed.insert("a".to_string(), "@b@".to_string());
    assert_eq!(interpolator.interpolate("@a@", &reversed).unwrap(), "@b@");
}

#[test]
fn unicode_values_are_substituted() {
    let interpolator = VariableInterpolator;
    let mut variables = VariableMap::new();
    variables.insert("name".to_string(), "黑风雷".to_string());
    assert_eq!(interpolator.interpolate("hi @name@!", &variables).unwrap(), "hi 黑风雷!");
}
