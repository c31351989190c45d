use floci_duck::models::{EnvDefaults, ExecuteRequest};
use floci_duck::sql::{
    apply_variables, athena_copy, describe_sql, escape_sql, parse_bool_str, resolve_s3_params,
    set_extension_dir_sql, setup_s3, trim_endpoint,
};
use floci_duck::text::is_blank_str;

fn no_env() -> EnvDefaults {
    EnvDefaults {
        extension_dir: None,
        s3_region: None,
        s3_access_key: None,
        s3_secret_key: None,
        s3_use_ssl: None,
        s3_url_style: None,
    }
}

#[test]
fn test_athena_mode_sql_wrap() {
    let req = ExecuteRequest {
        sql: "SELECT * FROM table".to_string(),
        s3_endpoint: "http://floci:9000".to_string(),
        s3_region: Some("us-east-1".to_string()),
        s3_access_key: None,
        s3_secret_key: None,
        s3_use_ssl: None,
        s3_url_style: None,
        output_s3_path: Some("s3://bucket/output.csv".to_string()),
        setup_sql: None,
        variables: None,
    };

    let variables = req.variables.clone().unwrap_or_default();
    let sql = apply_variables(&req.sql, &variables);
    let output_path = req.output_s3_path.as_ref().unwrap();
    let final_sql = athena_copy(&sql, output_path);
    assert_eq!(
        final_sql,
        "COPY (SELECT * FROM table) TO 's3://bucket/output.csv' (FORMAT CSV, HEADER);"
    );
}

#[test]
fn test_variable_substitution() {
    let vars = vec![
        ("table".to_string(), "my_table".to_string()),
        ("limit".to_string(), "100".to_string()),
    ];
    let sql = apply_variables("SELECT * FROM {{table}} LIMIT {{limit}}", &vars);
    assert_eq!(sql, "SELECT * FROM my_table LIMIT 100");
}

#[test]
fn test_escape_sql() {
    assert_eq!(escape_sql("O'Brien"), "O''Brien");
    assert_eq!(escape_sql("normal"), "normal");
}

#[test]
fn escape_sql_doubles_every_quote() {
    assert_eq!(escape_sql("''"), "''''");
    assert_eq!(escape_sql(""), "");
    assert_eq!(escape_sql("it's 'ok'"), "it''s ''ok''");
    assert_eq!(escape_sql("é'ü"), "é''ü");
}

#[test]
fn variables_repeat_and_unknown_placeholders_stay() {
    let vars = vec![("x".to_string(), "1".to_string())];
    assert_eq!(apply_variables("{{x}}+{{x}}={{y}}", &vars), "1+1={{y}}");
    assert_eq!(apply_variables("{{x}}", &Vec::new()), "{{x}}");
    assert_eq!(apply_variables("{x}", &vars), "{x}");
}

#[test]
fn variables_apply_in_order() {
    let vars = vec![
        ("a".to_string(), "{{b}}".to_string()),
        ("b".to_string(), "z".to_string()),
    ];
    assert_eq!(apply_variables("{{a}}", &vars), "z");
    let reversed = vec![
        ("b".to_string(), "z".to_string()),
        ("a".to_string(), "{{b}}".to_string()),
    ];
    assert_eq!(apply_variables("{{a}}", &reversed), "{{b}}");
}

#[test]
fn endpoint_loses_scheme_and_trailing_slashes() {
    assert_eq!(trim_endpoint("http://floci:4566/"), "floci:4566");
    assert_eq!(trim_endpoint("https://s3.example.com//"), "s3.example.com");
    assert_eq!(trim_endpoint("https://http://x"), "x");
    assert_eq!(trim_endpoint("floci:4566"), "floci:4566");
}

#[test]
fn bool_parsing_is_exact() {
    assert_eq!(parse_bool_str("true"), Some(true));
    assert_eq!(parse_bool_str("false"), Some(false));
    assert_eq!(parse_bool_str("True"), None);
    assert_eq!(parse_bool_str("1"), None);
}

#[test]
fn s3_params_fall_back_to_env_then_defaults() {
    let (region, access, secret, ssl, style) =
        resolve_s3_params("http://floci:4566", None, None, None, None, None, &no_env());
    assert_eq!(region, "us-east-1");
    assert_eq!(access, "flociadmin");
    assert_eq!(secret, "flociadmin");
    assert!(!ssl);
    assert_eq!(style, "path");

    let env = EnvDefaults {
        extension_dir: None,
        s3_region: Some("eu-west-1".to_string()),
        s3_access_key: Some("ak".to_string()),
        s3_secret_key: Some("sk".to_string()),
        s3_use_ssl: Some("true".to_string()),
        s3_url_style: Some("vhost".to_string()),
    };
    let (region, access, secret, ssl, style) =
        resolve_s3_params("http://floci:4566", None, None, None, None, None, &env);
    assert_eq!((region.as_str(), access.as_str(), secret.as_str(), ssl, style.as_str()), ("eu-west-1", "ak", "sk", true, "vhost"));

    let (region, _, _, ssl, _) = resolve_s3_params(
        "https://s3.amazonaws.com",
        Some("ap-south-1"),
        Some("a"),
        Some("s"),
        None,
        Some("path"),
        &env,
    );
    assert_eq!(region, "ap-south-1");
    assert!(ssl);
}

#[test]
fn unparseable_ssl_setting_falls_back_to_scheme() {
    let env = EnvDefaults { s3_use_ssl: Some("yes".to_string()), ..no_env() };
    let (_, _, _, ssl, _) = resolve_s3_params("https://x", None, None, None, None, None, &env);
    assert!(ssl);
    let (_, _, _, ssl, _) = resolve_s3_params("http://x", None, None, None, Some(true), None, &env);
    assert!(ssl);
}

#[test]
fn s3_setup_statements() {
    let batches = setup_s3("http://floci:4566/", "us-east-1", "ke'y", "secret", false, "path");
    assert_eq!(batches.len(), 2);
    assert_eq!(batches[0], "LOAD httpfs;");
    assert_eq!(
        batches[1],
        "SET s3_endpoint = 'floci:4566';
         SET s3_region = 'us-east-1';
         SET s3_access_key_id = 'ke''y';
         SET s3_secret_access_key = 'secret';
         SET s3_use_ssl = false;
         SET s3_url_style = 'path';"
    );
}

#[test]
fn extension_dir_and_describe_statements() {
    assert_eq!(set_extension_dir_sql("/ext's"), "SET extension_directory = '/ext''s';");
    assert_eq!(describe_sql("SELECT 1"), "DESCRIBE SELECT 1");
}

#[test]
fn blank_means_only_white_space() {
    assert!(is_blank_str(""));
    assert!(is_blank_str(" \t\n\u{3000}"));
    assert!(!is_blank_str("  x "));
}
