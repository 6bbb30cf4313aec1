use envfetch::models::ErrorKind;
use envfetch::store::Store;
use envfetch::variables::{
    delete_variable, find_variable, get_variables, print_env, set_variable, update_variable,
};

fn store_with(pairs: &[(&str, &str)]) -> Store {
    let owned: Vec<(String, String)> = pairs
        .iter()
        .map(|(k, v)| (k.to_string(), v.to_string()))
        .collect();
    Store::from_pairs(&owned)
}

#[test]
fn test_update_variable_key() {
    let mut store = store_with(&[("OLD_TEST_KEY", "test_value")]);
    let result = update_variable(&mut store, "OLD_TEST_KEY", Some("NEW_TEST_KEY"), None);
    assert!(result.is_ok());
    assert_eq!(store.get_value("NEW_TEST_KEY").unwrap(), "test_value");
    assert!(store.get_value("OLD_TEST_KEY").is_none());
}

#[test]
fn test_update_variable_value() {
    let mut store = store_with(&[("TEST_UPDATE_VAR", "old_value")]);
    let result = update_variable(&mut store, "TEST_UPDATE_VAR", None, Some("new_value"));
    assert!(result.is_ok());
    assert_eq!(store.get_value("TEST_UPDATE_VAR").unwrap(), "new_value");
}

#[test]
fn test_update_variable_both() {
    let mut store = store_with(&[("OLD_KEY", "test_value")]);
    let result = update_variable(&mut store, "OLD_KEY", Some("NEW_KEY"), Some("new_value"));
    assert!(result.is_ok());
    assert_eq!(store.get_value("NEW_KEY").unwrap(), "new_value");
    assert!(store.get_value("OLD_KEY").is_none());
}

#[test]
fn test_update_variable_nothing_to_do() {
    let mut store = store_with(&[("KEY", "v")]);
    assert!(update_variable(&mut store, "KEY", None, None).is_ok());
    assert_eq!(store.get_value("KEY").unwrap(), "v");
}

#[test]
fn test_update_variable_missing_without_value() {
    let mut store = store_with(&[]);
    let result = update_variable(&mut store, "ABSENT", Some("NEW"), None);
    match result.unwrap_err() {
        ErrorKind::InvalidInput(m) => {
            assert_eq!(m, "Cannot update variable without a value");
        }
        _ => panic!("Unexpected error type"),
    }
}

#[test]
fn test_set_variable_rejects_empty_key() {
    let mut store = store_with(&[]);
    let result = set_variable(&mut store, "", "v");
    match result.unwrap_err() {
        ErrorKind::InvalidInput(m) => {
            assert_eq!(m, "Variable key cannot be empty");
        }
        _ => panic!("Unexpected error type"),
    }
}

#[test]
fn test_set_variable_rejects_equals_in_key() {
    let mut store = store_with(&[]);
    let result = set_variable(&mut store, "A=B", "v");
    match result.unwrap_err() {
        ErrorKind::InvalidInput(m) => {
            assert_eq!(m, "Invalid characters in variable name");
        }
        _ => panic!("Unexpected error type"),
    }
}

#[test]
fn test_delete_variable_missing_is_noop() {
    let mut store = store_with(&[("KEEP", "v")]);
    let result = delete_variable(&mut store, "GHOST");
    assert!(result.is_ok());
    assert!(store.get_value("GHOST").is_none());
    assert_eq!(store.get_value("KEEP").unwrap(), "v");
}

#[test]
fn test_update_variable_rename_of_missing_key() {
    let mut store = store_with(&[]);
    let result = update_variable(&mut store, "ABSENT", Some("NEW"), Some("v"));
    assert!(result.is_ok());
    assert_eq!(store.get_value("NEW").unwrap(), "v");
}

#[test]
fn test_find_variable_returns_pair() {
    let store = store_with(&[("NEEDLE", "found")]);
    assert_eq!(
        find_variable(&store, "NEEDLE").unwrap(),
        ("NEEDLE".to_string(), "found".to_string())
    );
    assert!(find_variable(&store, "MISSING").is_none());
}

#[test]
fn test_get_variables_lists_all() {
    let store = store_with(&[("A", "1"), ("B", "2")]);
    let listed = get_variables(&store);
    assert_eq!(
        listed,
        vec![
            ("A".to_string(), "1".to_string()),
            ("B".to_string(), "2".to_string())
        ]
    );
}

#[test]
fn test_print_env_default_like_format() {
    let store = store_with(&[("TEST_PRINT_VAR", "test_value")]);
    let out = print_env("{name} = \"{value}\"", &store);
    assert_eq!(out, "TEST_PRINT_VAR = \"test_value\"\n");
}

#[test]
fn test_print_env_custom_format() {
    let store = store_with(&[("TEST_PRINT_RUN_CONFIG", "test_value")]);
    let out = print_env("{name} = {value}", &store);
    assert!(out.contains("TEST_PRINT_RUN_CONFIG = test_value"));
}

#[test]
fn test_print_env_multiple_variables_in_order() {
    let store = store_with(&[("TEST_VAR_1", "value1"), ("TEST_VAR_2", "value2")]);
    let out = print_env("{name}={value}", &store);
    assert_eq!(out, "TEST_VAR_1=value1\nTEST_VAR_2=value2\n");
}

#[test]
fn test_print_env_repeated_placeholders() {
    let store = store_with(&[("K", "v")]);
    let out = print_env("{name}{name}={value}{value}", &store);
    assert_eq!(out, "KK=vv\n");
}
