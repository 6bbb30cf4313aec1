use envfetch::commands::{
    add, delete, export, get, load, load_permanent, run_command, CommandOutcome,
};
use envfetch::models::{
    Cli, Commands, DeleteArgs, ErrorKind, GetArgs, GloadArgs, GsetArgs, LoadArgs, SetArgs,
};
use envfetch::store::Store;

fn store_with(pairs: &[(&str, &str)]) -> Store {
    let owned: Vec<(String, String)> = pairs
        .iter()
        .map(|(k, v)| (k.to_string(), v.to_string()))
        .collect();
    Store::from_pairs(&owned)
}

fn run(store: &mut Store, command: Commands) -> CommandOutcome {
    run_command(
        store,
        &Cli {
            command,
            exit_on_error: false,
        },
        "",
        None,
    )
}

#[test]
fn test_get_existing_variable() {
    let store = store_with(&[("TEST_GET_VAR", "test_value")]);
    let args = GetArgs {
        key: "TEST_GET_VAR".to_string(),
        no_similar_names: false,
    };
    let result = get(&store, &args);
    assert_eq!(result.unwrap(), "test_value");
}

#[test]
fn test_get_nonexistent_variable_with_similar_names() {
    let store = store_with(&[("TEST_SIMILAR", "value")]);
    let args = GetArgs {
        key: "TEST_SMILAR".to_string(), // Intentional typo
        no_similar_names: false,
    };
    let result = get(&store, &args);
    assert!(result.is_err());
    match result.unwrap_err() {
        ErrorKind::CannotFindVariable(var, no_similar) => {
            assert_eq!(var, "TEST_SMILAR");
            assert!(!no_similar);
        }
        _ => panic!("Unexpected error type"),
    }
}

#[test]
fn test_get_nonexistent_variable_no_similar_names() {
    let store = store_with(&[]);
    let args = GetArgs {
        key: "NONEXISTENT_VAR".to_string(),
        no_similar_names: true,
    };
    let result = get(&store, &args);
    assert!(result.is_err());
    match result.unwrap_err() {
        ErrorKind::CannotFindVariable(var, no_similar) => {
            assert_eq!(var, "NONEXISTENT_VAR");
            assert!(no_similar);
        }
        _ => panic!("Unexpected error type"),
    }
}

#[test]
fn test_get_special_characters() {
    let store = store_with(&[("TEST_SPECIAL_$#@", "special_value")]);
    let args = GetArgs {
        key: "TEST_SPECIAL_$#@".to_string(),
        no_similar_names: false,
    };
    let result = get(&store, &args);
    assert!(result.is_ok());
}

#[test]
fn test_set_valid_variable() {
    let mut store = store_with(&[]);
    let args = SetArgs {
        key: "TEST_SET_VAR".to_string(),
        value: "test_value".to_string(),
        process: String::new(),
    };
    let result = envfetch::commands::set(&mut store, &args);
    assert!(result.is_ok());
    assert_eq!(store.get_value("TEST_SET_VAR").unwrap(), "test_value");
}

#[test]
fn test_set_invalid_variable_name() {
    let mut store = store_with(&[]);
    let args = SetArgs {
        key: "INVALID NAME".to_string(), // Space in name
        value: "test_value".to_string(),
        process: String::new(),
    };
    let result = envfetch::commands::set(&mut store, &args);
    assert!(result.is_err());
    match result.unwrap_err() {
        ErrorKind::NameValidationError(err) => {
            assert!(err.contains("cannot contain spaces"));
        }
        _ => panic!("Unexpected error type"),
    }
}

#[test]
fn test_set_empty_variable_name() {
    let mut store = store_with(&[]);
    let args = SetArgs {
        key: "".to_string(),
        value: "test_value".to_string(),
        process: String::new(),
    };
    let result = envfetch::commands::set(&mut store, &args);
    assert!(result.is_err());
    match result.unwrap_err() {
        ErrorKind::NameValidationError(err) => {
            assert!(err.contains("cannot be empty"));
        }
        _ => panic!("Expected NameValidationError"),
    }
    assert!(store.get_value("").is_none());
}

#[test]
fn test_set_overwrite_existing() {
    let mut store = store_with(&[("TEST_OVERWRITE", "old_value")]);
    let args = SetArgs {
        key: "TEST_OVERWRITE".to_string(),
        value: "new_value".to_string(),
        process: String::new(),
    };
    let result = envfetch::commands::set(&mut store, &args);
    assert!(result.is_ok());
    assert_eq!(store.get_value("TEST_OVERWRITE").unwrap(), "new_value");
}

#[test]
fn test_set_then_get_round_trip() {
    let mut store = store_with(&[]);
    let args = SetArgs {
        key: "ROUND_TRIP".to_string(),
        value: "exact value".to_string(),
        process: String::new(),
    };
    envfetch::commands::set(&mut store, &args).unwrap();
    let got = get(
        &store,
        &GetArgs {
            key: "ROUND_TRIP".to_string(),
            no_similar_names: true,
        },
    );
    assert_eq!(got.unwrap(), "exact value");
}

#[test]
fn test_add_to_nonexistent_variable() {
    let mut store = store_with(&[]);
    let result = add(&mut store, "TEST_ADD_NEW", "new_value");
    assert!(result.is_ok());
    assert_eq!(store.get_value("TEST_ADD_NEW").unwrap(), "new_value");
}

#[test]
fn test_add_to_existing_variable() {
    let mut store = store_with(&[("TEST_ADD_EXISTING", "existing_")]);
    let result = add(&mut store, "TEST_ADD_EXISTING", "appended");
    assert!(result.is_ok());
    assert_eq!(
        store.get_value("TEST_ADD_EXISTING").unwrap(),
        "existing_appended"
    );
}

#[test]
fn test_add_with_invalid_name() {
    let mut store = store_with(&[]);
    let result = add(&mut store, "INVALID NAME", "test_value");
    assert!(result.is_err());
    match result.unwrap_err() {
        ErrorKind::NameValidationError(err) => {
            assert!(err.contains("cannot contain spaces"));
        }
        _ => panic!("Unexpected error type"),
    }
}

#[test]
fn test_add_empty_value() {
    let mut store = store_with(&[("TEST_ADD_EMPTY", "existing")]);
    let result = add(&mut store, "TEST_ADD_EMPTY", "");
    assert!(result.is_ok());
    assert_eq!(store.get_value("TEST_ADD_EMPTY").unwrap(), "existing");
}

#[test]
fn test_delete_existing_variable() {
    let mut store = store_with(&[("TEST_DELETE_VAR", "test_value")]);
    let args = DeleteArgs {
        key: "TEST_DELETE_VAR".to_string(),
        process: String::new(),
    };
    let result = delete(&mut store, &args);
    assert!(result.is_ok());
    assert!(store.get_value("TEST_DELETE_VAR").is_none());
}

#[test]
fn test_delete_nonexistent_variable() {
    let mut store = store_with(&[("OTHER", "v")]);
    let args = DeleteArgs {
        key: "NONEXISTENT_VAR".to_string(),
        process: String::new(),
    };
    let result = delete(&mut store, &args);
    // Should succeed even if variable doesn't exist
    assert!(result.is_ok());
    assert!(!result.unwrap());
    assert!(store.get_value("NONEXISTENT_VAR").is_none());
    assert_eq!(store.get_value("OTHER").unwrap(), "v");
}

#[test]
fn test_delete_with_invalid_name() {
    let mut store = store_with(&[]);
    let args = DeleteArgs {
        key: "INVALID NAME".to_string(),
        process: String::new(),
    };
    let result = delete(&mut store, &args);
    assert!(result.is_err());
    match result.unwrap_err() {
        ErrorKind::NameValidationError(err) => {
            assert!(err.contains("cannot contain spaces"));
        }
        _ => panic!("Unexpected error type"),
    }
}

#[test]
fn test_delete_with_empty_name() {
    let mut store = store_with(&[]);
    let args = DeleteArgs {
        key: "".to_string(),
        process: String::new(),
    };
    let result = delete(&mut store, &args);
    assert!(result.is_err());
    match result.unwrap_err() {
        ErrorKind::NameValidationError(err) => {
            assert!(err.contains("empty"));
        }
        _ => panic!("Unexpected error type"),
    }
}

#[test]
fn test_export_valid_keys() {
    let store = store_with(&[("TEST_EXPORT_ONE", "val1"), ("TEST_EXPORT_TWO", "val2")]);
    let content = export(
        &store,
        &vec!["TEST_EXPORT_ONE".to_string(), "TEST_EXPORT_TWO".to_string()],
    )
    .unwrap();
    assert!(content.contains("TEST_EXPORT_ONE=val1"));
    assert!(content.contains("TEST_EXPORT_TWO=val2"));
    assert_eq!(content, "TEST_EXPORT_ONE=val1\nTEST_EXPORT_TWO=val2\n");
}

#[test]
fn test_export_skips_duplicate_keys() {
    let store = store_with(&[("TEST_EXPORT_ONE", "val")]);
    let content = export(
        &store,
        &vec!["TEST_EXPORT_ONE".to_string(), "TEST_EXPORT_ONE".to_string()],
    )
    .unwrap();
    assert!(!content.contains("TEST_EXPORT_ONE=val\nTEST_EXPORT_ONE=val"));
    assert_eq!(content, "TEST_EXPORT_ONE=val\n");
}

#[test]
fn test_export_skips_missing_vars() {
    let store = store_with(&[
        ("TEST_EXPORT_EXISTING", "val"),
        ("TEST_EXPORT_EXISTING2", "val2"),
    ]);
    let content = export(
        &store,
        &vec![
            "TEST_EXPORT_EXISTING".to_string(),
            "TEST_EXPORT_MISSING".to_string(),
            "TEST_EXPORT_EXISTING2".to_string(),
        ],
    )
    .unwrap();
    assert!(content.contains("TEST_EXPORT_EXISTING=val"));
    assert!(!content.contains("TEST_EXPORT_MISSING"));
    assert!(content.contains("TEST_EXPORT_EXISTING2=val2"));
}

#[test]
fn test_export_empty_key() {
    let store = store_with(&[]);
    let result = export(&store, &vec!["".to_string()]);
    assert!(result.is_err());
    match result.unwrap_err() {
        ErrorKind::NameValidationError(e) => {
            assert!(e.contains("cannot be empty"));
        }
        _ => panic!("Unexpected error type"),
    }
}

#[test]
fn test_export_invalid_key_name() {
    let store = store_with(&[]);
    let result = export(&store, &vec!["INVALID KEY".to_string()]);
    assert!(result.is_err());
    match result.unwrap_err() {
        ErrorKind::NameValidationError(e) => {
            assert!(e.contains("cannot contain spaces"));
        }
        _ => panic!("Unexpected error type"),
    }
}

#[test]
fn test_load_valid_env_file() {
    let mut store = store_with(&[]);
    let result = load(&mut store, "TEST_VAR=test_value\nOTHER_VAR=other_value");
    assert!(result.is_ok());
    assert_eq!(store.get_value("TEST_VAR").unwrap(), "test_value");
    assert_eq!(store.get_value("OTHER_VAR").unwrap(), "other_value");
}

#[test]
fn test_load_invalid_env_file() {
    let mut store = store_with(&[]);
    // Invalid dotenv format that the parser will reject
    let result = load(&mut store, "TEST_VAR test_value\n");
    assert!(result.is_err());
    assert!(matches!(result.unwrap_err(), ErrorKind::ParsingError(_)));
}

#[test]
fn test_load_empty_file() {
    let mut store = store_with(&[]);
    let result = load(&mut store, "");
    assert!(result.is_ok());
}

#[test]
fn test_load_with_invalid_variable_name() {
    let mut store = store_with(&[]);
    let result = load(&mut store, "TEST_VAR=test_value\nINVALID NAME=value\n");
    assert!(result.is_err());
    assert!(matches!(result.unwrap_err(), ErrorKind::ParsingError(_)));
}

#[test]
fn test_load_permanent_records_pairs() {
    let mut store = store_with(&[]);
    let result = load_permanent(
        &mut store,
        "# Environment variables\n",
        "GLOBAL_TEST_VAR='GlobalTest'\nGLOBAL_TEST_VAR2='Hello'",
    );
    let rc = result.unwrap();
    assert!(rc.contains("export GLOBAL_TEST_VAR=\"GlobalTest\""));
    assert!(rc.contains("export GLOBAL_TEST_VAR2=\"Hello\""));
    assert_eq!(store.get_value("GLOBAL_TEST_VAR").unwrap(), "GlobalTest");
    assert_eq!(store.get_value("GLOBAL_TEST_VAR2").unwrap(), "Hello");
}

#[test]
fn test_load_permanent_rejects_double_equals() {
    let mut store = store_with(&[]);
    let result = load_permanent(&mut store, "", "INVALID==Test");
    match result.unwrap_err() {
        ErrorKind::ParsingError(m) => {
            assert_eq!(m, "Invalid file format: contains double equals");
        }
        _ => panic!("Unexpected error type"),
    }
}

#[test]
fn test_run_command_get_success() {
    let mut store = store_with(&[("TEST_RUN_VAR", "test_value")]);
    let outcome = run(
        &mut store,
        Commands::Get(GetArgs {
            key: "TEST_RUN_VAR".to_string(),
            no_similar_names: false,
        }),
    );
    assert!(outcome.error.is_none());
    assert!(outcome.output.contains("\"test_value\""));
}

#[test]
fn test_run_command_get_fail() {
    let mut store = store_with(&[]);
    let outcome = run(
        &mut store,
        Commands::Get(GetArgs {
            key: "TEST_RUN_VAR_awzsenfkaqyG".to_string(),
            no_similar_names: false,
        }),
    );
    assert!(outcome.error.is_some());
}

#[test]
fn test_run_command_get_with_similar_names() {
    let mut store = store_with(&[("TEST_SIMILAR_VAR", "value")]);
    let outcome = run(
        &mut store,
        Commands::Get(GetArgs {
            key: "TEST_SMILAR_VAR".to_string(), // Intentional typo
            no_similar_names: false,
        }),
    );
    assert_eq!(outcome.error.unwrap(), "can't find 'TEST_SMILAR_VAR'");
    assert!(outcome.output.contains("Did you mean:"));
    assert!(outcome.output.contains("  TEST_SIMILAR_VAR"));
}

#[test]
fn test_run_command_set() {
    let mut store = store_with(&[]);
    let outcome = run(
        &mut store,
        Commands::SetVar(SetArgs {
            key: "TEST_SET_RUN".to_string(),
            value: "test_value".to_string(),
            process: "echo test".to_string(),
        }),
    );
    assert!(outcome.error.is_none());
    assert_eq!(outcome.process.unwrap(), "echo test");
    assert_eq!(store.get_value("TEST_SET_RUN").unwrap(), "test_value");
}

#[test]
fn test_run_command_set_invalid_name() {
    let mut store = store_with(&[]);
    let outcome = run(
        &mut store,
        Commands::SetVar(SetArgs {
            key: "INVALID NAME".to_string(),
            value: "test_value".to_string(),
            process: String::new(),
        }),
    );
    assert!(outcome.error.is_some());
    assert!(outcome.process.is_none());
}

#[test]
fn test_run_command_delete_nonexistent() {
    let mut store = store_with(&[]);
    let outcome = run(
        &mut store,
        Commands::Delete(DeleteArgs {
            key: "NONEXISTENT_VAR".to_string(),
            process: "echo done".to_string(),
        }),
    );
    // Should succeed even if the variable doesn't exist
    assert!(outcome.error.is_none());
    assert_eq!(outcome.warning.unwrap(), "variable doesn't exists");
    assert_eq!(outcome.process.unwrap(), "echo done");
}

#[test]
fn test_run_command_delete_invalid_name() {
    let mut store = store_with(&[]);
    let outcome = run(
        &mut store,
        Commands::Delete(DeleteArgs {
            key: "INVALID NAME".to_string(),
            process: String::new(),
        }),
    );
    assert!(outcome.error.is_some());
}

#[test]
fn test_run_command_print() {
    let mut store = store_with(&[("TEST_PRINT_RUN", "test_value")]);
    let outcome = run(&mut store, Commands::Print);
    assert!(outcome
        .output
        .contains("TEST_PRINT_RUN = \"test_value\""));
}

#[test]
fn test_run_command_gset_and_gdelete() {
    let mut store = store_with(&[]);
    let outcome = run_command(
        &mut store,
        &Cli {
            command: Commands::Gset(GsetArgs {
                key: "GSET_TEST_VAR".to_string(),
                value: "GlobalValue".to_string(),
            }),
            exit_on_error: false,
        },
        "# Environment variables\n",
        None,
    );
    assert!(outcome.error.is_none());
    let rc = outcome.new_rc_content.unwrap();
    assert_eq!(
        rc,
        "# Environment variables\nexport GSET_TEST_VAR=\"GlobalValue\"\n"
    );
    assert_eq!(store.get_value("GSET_TEST_VAR").unwrap(), "GlobalValue");

    let outcome = run_command(
        &mut store,
        &Cli {
            command: Commands::Gdelete(envfetch::models::GdeleteArgs {
                key: "GSET_TEST_VAR".to_string(),
            }),
            exit_on_error: false,
        },
        &rc,
        None,
    );
    assert!(outcome.error.is_none());
    let rc2 = outcome.new_rc_content.unwrap();
    assert!(!rc2.contains("GSET_TEST_VAR"));
    assert!(store.get_value("GSET_TEST_VAR").is_none());
}

#[test]
fn test_run_command_gset_empty_name() {
    let mut store = store_with(&[]);
    let outcome = run(
        &mut store,
        Commands::Gset(GsetArgs {
            key: "".to_string(),
            value: "Value".to_string(),
        }),
    );
    assert_eq!(outcome.error.unwrap(), "Variable name cannot be empty");
    assert!(outcome.new_rc_content.is_none());
}

#[test]
fn test_run_command_gdelete_empty_name() {
    let mut store = store_with(&[]);
    let outcome = run(
        &mut store,
        Commands::Gdelete(envfetch::models::GdeleteArgs { key: "".to_string() }),
    );
    assert_eq!(outcome.error.unwrap(), "Variable name cannot be empty");
    assert!(outcome.new_rc_content.is_none());
}

#[test]
fn test_run_command_get_escapes_control_characters() {
    let mut store = store_with(&[("CTRL", "a\u{1}b\u{7f}c")]);
    let outcome = run(
        &mut store,
        Commands::Get(GetArgs {
            key: "CTRL".to_string(),
            no_similar_names: true,
        }),
    );
    assert_eq!(outcome.output, "\"a\\u{1}b\\u{7f}c\"\n");
}

#[test]
fn test_run_command_gset_invalid_name() {
    let mut store = store_with(&[]);
    let outcome = run(
        &mut store,
        Commands::Gset(GsetArgs {
            key: "INVALID NAME".to_string(),
            value: "Value".to_string(),
        }),
    );
    assert!(outcome.error.is_some());
    assert!(outcome.new_rc_content.is_none());
}

#[test]
fn test_run_command_load() {
    let mut store = store_with(&[]);
    let outcome = run_command(
        &mut store,
        &Cli {
            command: Commands::Load(LoadArgs {
                process: "echo test".to_string(),
                file: ".env".to_string(),
            }),
            exit_on_error: false,
        },
        "",
        Some("TEST_LOAD_RUN=test_value"),
    );
    assert!(outcome.error.is_none());
    assert_eq!(outcome.process.unwrap(), "echo test");
    assert_eq!(store.get_value("TEST_LOAD_RUN").unwrap(), "test_value");
}

#[test]
fn test_run_command_gload_invalid_content() {
    let mut store = store_with(&[]);
    let outcome = run_command(
        &mut store,
        &Cli {
            command: Commands::Gload(GloadArgs {
                file: ".env.invalid.test".to_string(),
            }),
            exit_on_error: false,
        },
        "",
        Some("INVALID==Test"),
    );
    assert_eq!(
        outcome.error.unwrap(),
        "Invalid file format: contains double equals"
    );
}

#[test]
fn test_run_command_get_escapes_value() {
    let mut store = store_with(&[("QUOTED", "a\"b\\c")]);
    let outcome = run(
        &mut store,
        Commands::Get(GetArgs {
            key: "QUOTED".to_string(),
            no_similar_names: true,
        }),
    );
    assert_eq!(outcome.output, "\"a\\\"b\\\\c\"\n");
}

#[test]
fn test_scoped_set_and_missing_lookup() {
    // A set value is seen exactly by a following lookup, and a lookup of a
    // near-miss name fails with a suggestion for the near name.
    let mut store = store_with(&[("MY_VARIABLEE", "Hello")]);
    let outcome = run(
        &mut store,
        Commands::SetVar(SetArgs {
            key: "MY_VAR".to_string(),
            value: "Hello".to_string(),
            process: "echo $MY_VAR".to_string(),
        }),
    );
    assert!(outcome.error.is_none());
    assert_eq!(outcome.process.unwrap(), "echo $MY_VAR");
    assert_eq!(store.get_value("MY_VAR").unwrap(), "Hello");

    let outcome = run(
        &mut store,
        Commands::Get(GetArgs {
            key: "MY_VARIABLE".to_string(),
            no_similar_names: false,
        }),
    );
    assert_eq!(outcome.error.unwrap(), "can't find 'MY_VARIABLE'");
    assert!(outcome.output.contains("MY_VARIABLEE"));
}
