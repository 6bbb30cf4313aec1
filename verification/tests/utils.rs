use envfetch::similarity::{find_similar_string, find_similar_vars};
use envfetch::utils::validate_var_name;

#[test]
fn test_validate_var_name_valid() {
    let valid_names = vec![
        "VALID_NAME",
        "MY_VAR_123",
        "PATH",
        "_HIDDEN",
        "VALID_NAME_WITH_NUMBERS_123",
        "A", // Single character
    ];

    for name in valid_names {
        assert!(validate_var_name(name).is_ok());
    }
}

#[test]
fn test_validate_var_name_with_spaces() {
    let invalid_names = vec![
        "INVALID NAME",
        "MY VAR",
        " LEADING_SPACE",
        "TRAILING_SPACE ",
        "MULTIPLE   SPACES",
    ];

    for name in invalid_names {
        let result = validate_var_name(name);
        assert!(result.is_err());
        assert_eq!(result.unwrap_err(), "Variable name cannot contain spaces");
    }
}

#[test]
fn test_validate_var_name_empty() {
    let result = validate_var_name("");
    assert!(
        result.is_err(),
        "Empty string should be invalid as per current implementation"
    );
    assert_eq!(result.unwrap_err(), "Variable name cannot be empty");
}

#[test]
fn test_validator_rules() {
    assert_eq!(
        validate_var_name("").unwrap_err(),
        "Variable name cannot be empty"
    );
    assert_eq!(
        validate_var_name("A B").unwrap_err(),
        "Variable name cannot contain spaces"
    );
    assert!(validate_var_name("A_1").is_ok());
}

#[test]
fn test_find_similar_string_exact_match() {
    let strings = vec!["PATH".to_string(), "HOME".to_string(), "USER".to_string()];
    let result = find_similar_string("PATH".to_string(), strings, 80);
    assert_eq!(result, vec!["PATH"]);
}

#[test]
fn test_find_similar_string_case_insensitive() {
    let strings = vec!["PATH".to_string(), "HOME".to_string(), "USER".to_string()];
    let result = find_similar_string("path".to_string(), strings, 80);
    assert_eq!(result, vec!["PATH"]);
}

#[test]
fn test_find_similar_string_no_match() {
    let strings = vec!["PATH".to_string(), "HOME".to_string(), "USER".to_string()];
    let result = find_similar_string("XXXXXX".to_string(), strings, 80);
    assert!(result.is_empty());
}

#[test]
fn test_find_similar_string_keeps_input_order() {
    let strings = vec![
        "MY_VARIABLE1".to_string(),
        "OTHER".to_string(),
        "MY_VARIABLE2".to_string(),
    ];
    let result = find_similar_string("MY_VARIABLE".to_string(), strings, 60);
    assert_eq!(result, vec!["MY_VARIABLE1", "MY_VARIABLE2"]);
}

#[test]
fn test_find_similar_vars_none_when_empty() {
    let names = vec!["PATH".to_string(), "HOME".to_string()];
    assert!(find_similar_vars("zzzzzz", names).is_none());
    let names = vec!["MY_VARIABLEE".to_string()];
    let found = find_similar_vars("MY_VARIABLE", names).unwrap();
    assert_eq!(found, vec!["MY_VARIABLEE"]);
}
