use minigrep::config::Config;

#[test]
fn return_result_err_when_arg_query_not_provided() {
    let args = vec!["arg1".to_string()];
    let result = Config::new(args, true);

    assert!(result.is_err());
    assert_eq!(result.err().unwrap(), "Query argument not provided")
}

#[test]
fn return_result_err_when_arg_filename_not_provided() {
    let args = vec!["arg1".to_string(), "query".to_string()];
    let result = Config::new(args, true);

    assert!(result.is_err());
    assert_eq!(result.err().unwrap(), "Filename argument not provided")
}

#[test]
fn return_ok_along_with_config() {
    let query = "query".to_string();
    let filename = "filename".to_string();
    let args = vec!["arg1".to_string(), query.clone(), filename.clone()];

    let config = Config::new(args, true);

    assert!(config.is_ok());

    let config = config.unwrap();

    assert_eq!(config.query, query);
    assert_eq!(config.filename, filename);
}

#[test]
fn config_keeps_chosen_case_sensitivity() {
    let args = vec!["arg1".to_string(), "q".to_string(), "f".to_string()];

    let config = Config::new(args, false).unwrap();

    assert!(!config.case_sensitive);
}
