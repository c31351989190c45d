use floci_duck::executor::{
    execute_query, ipc_batch, ipc_batches, ipc_result, plan_query, preflight, sends_batch, BatchAction,
    BatchEvent, BatchRun, QueryAction, QueryRun,
};
use floci_duck::json::JsonValue;
use floci_duck::models::{ArrowIpc, Column, EnvDefaults, ExecuteRequest, QueryRequest};

fn env_with_dir() -> EnvDefaults {
    EnvDefaults {
        extension_dir: Some("/data/ext".to_string()),
        s3_region: None,
        s3_access_key: None,
        s3_secret_key: None,
        s3_use_ssl: None,
        s3_url_style: None,
    }
}

fn request(setup: Option<&str>, output: Option<&str>) -> ExecuteRequest {
    ExecuteRequest {
        sql: "SELECT * FROM '{{src}}'".to_string(),
        s3_endpoint: "http://floci:4566".to_string(),
        s3_region: None,
        s3_access_key: None,
        s3_secret_key: None,
        s3_use_ssl: None,
        s3_url_style: None,
        output_s3_path: output.map(String::from),
        setup_sql: setup.map(String::from),
        variables: Some(vec![("src".to_string(), "s3://b/k.csv".to_string())]),
    }
}

fn collect(run: &mut BatchRun) -> (Vec<String>, bool) {
    let mut executed = Vec::new();
    let mut action = run.start();
    loop {
        match action {
            BatchAction::Execute(sql) => {
                executed.push(sql);
                action = run.step(BatchEvent::Succeeded);
            }
            BatchAction::Finished => return (executed, true),
            BatchAction::Aborted => return (executed, false),
        }
    }
}

#[test]
fn execute_script_in_firehose_mode() {
    let mut run = execute_query(request(Some("CREATE VIEW v AS SELECT '{{src}}'"), None), &env_with_dir());
    let (executed, ok) = collect(&mut run);
    assert!(ok);
    assert_eq!(executed.len(), 5);
    assert_eq!(executed[0], "SET extension_directory = '/data/ext';");
    assert_eq!(executed[1], "LOAD httpfs;");
    assert!(executed[2].starts_with("SET s3_endpoint = 'floci:4566';"));
    assert_eq!(executed[3], "CREATE VIEW v AS SELECT 's3://b/k.csv'");
    assert_eq!(executed[4], "SELECT * FROM 's3://b/k.csv'");
}

#[test]
fn execute_script_in_athena_mode_skips_blank_setup() {
    let env = EnvDefaults { extension_dir: None, ..env_with_dir() };
    let mut run = execute_query(request(Some("   \n"), Some("s3://out/r.csv")), &env);
    let (executed, ok) = collect(&mut run);
    assert!(ok);
    assert_eq!(executed.len(), 3);
    assert_eq!(
        executed[2],
        "COPY (SELECT * FROM 's3://b/k.csv') TO 's3://out/r.csv' (FORMAT CSV, HEADER);"
    );
}

#[test]
fn a_failed_batch_stops_the_run() {
    let mut run = execute_query(request(None, None), &env_with_dir());
    match run.start() {
        BatchAction::Execute(sql) => assert_eq!(sql, "SET extension_directory = '/data/ext';"),
        other => panic!("unexpected {:?}", other),
    }
    assert!(matches!(run.step(BatchEvent::Succeeded), BatchAction::Execute(_)));
    assert!(matches!(run.step(BatchEvent::Failed), BatchAction::Aborted));
    assert!(matches!(run.step(BatchEvent::Succeeded), BatchAction::Aborted));
    assert!(matches!(run.step(BatchEvent::Failed), BatchAction::Aborted));
}

#[test]
fn empty_run_finishes_at_once() {
    let mut run = BatchRun::new(Vec::new());
    assert!(matches!(run.start(), BatchAction::Finished));
    assert!(matches!(run.step(BatchEvent::Failed), BatchAction::Finished));
}

#[test]
fn preflight_installs_httpfs() {
    let mut run = preflight(&env_with_dir());
    let (executed, ok) = collect(&mut run);
    assert!(ok);
    assert_eq!(executed, vec!["SET extension_directory = '/data/ext';".to_string(), "INSTALL httpfs;".to_string()]);
    let env = EnvDefaults { extension_dir: None, ..env_with_dir() };
    assert_eq!(preflight(&env).batches(), &vec!["INSTALL httpfs;".to_string()]);
}

#[test]
fn query_plan_keeps_setup_raw_and_drops_blank_followup() {
    let req = QueryRequest {
        sql: "SELECT 1".to_string(),
        s3_endpoint: "https://s3".to_string(),
        s3_region: None,
        s3_access_key: None,
        s3_secret_key: None,
        s3_use_ssl: None,
        s3_url_style: None,
        setup_sql: Some("CREATE VIEW v AS SELECT '{{x}}'".to_string()),
        typed_values: true,
        followup_sql: Some(" ".to_string()),
        arrow_ipc: false,
    };
    let env = EnvDefaults { extension_dir: None, ..env_with_dir() };
    let plan = plan_query(&req, &env);
    let batches = &plan.setup;
    assert_eq!(batches.len(), 3);
    assert!(batches[1].contains("SET s3_use_ssl = true;"));
    assert_eq!(batches[2], "CREATE VIEW v AS SELECT '{{x}}'");
    assert_eq!(plan.sql, "SELECT 1");
    assert!(plan.typed_values);
    assert!(!plan.arrow_ipc);
    assert_eq!(plan.followup, None);

    let req2 = QueryRequest { followup_sql: Some("SELECT 2".to_string()), setup_sql: None, ..req };
    let plan2 = plan_query(&req2, &env);
    assert_eq!(plan2.followup, Some("SELECT 2".to_string()));
    assert_eq!(plan2.setup.len(), 2);
}

#[test]
fn ipc_payload_is_base64() {
    assert!(!sends_batch(0));
    assert!(sends_batch(3));
    let b = ipc_batch(&[0xFF, 0xFF, 0xFF, 0xFF], 2);
    assert_eq!(b.data, "/////w==");
    assert_eq!(b.row_count, 2);
    let r = ipc_result(b"foo", vec![b]);
    assert_eq!(r.schema, "Zm9v");
    assert_eq!(r.batches.len(), 1);
}

fn query_request(followup: Option<&str>, arrow_ipc: bool) -> QueryRequest {
    QueryRequest {
        sql: "SELECT 1 AS a".to_string(),
        s3_endpoint: "http://floci:4566".to_string(),
        s3_region: None,
        s3_access_key: None,
        s3_secret_key: None,
        s3_use_ssl: None,
        s3_url_style: None,
        setup_sql: None,
        typed_values: true,
        followup_sql: followup.map(String::from),
        arrow_ipc,
    }
}

fn no_env() -> EnvDefaults {
    EnvDefaults { extension_dir: None, ..env_with_dir() }
}

fn column(name: &str) -> Column {
    Column { name: name.to_string(), sql_type: "INTEGER".to_string() }
}

#[test]
fn query_run_fetches_statement_then_followup() {
    let mut run = QueryRun::new(plan_query(&query_request(Some("SELECT 2 AS b"), false), &no_env()));
    assert!(matches!(run.start(), QueryAction::Execute(ref s) if s == "LOAD httpfs;"));
    assert!(matches!(run.batch_done(true), QueryAction::Execute(ref s) if s.starts_with("SET s3_endpoint")));
    match run.batch_done(true) {
        QueryAction::FetchRows(sql, typed) => {
            assert_eq!(sql, "SELECT 1 AS a");
            assert!(typed);
        }
        _ => panic!("expected the statement"),
    }
    match run.rows_fetched(vec![column("a")], vec![vec![("a".to_string(), JsonValue::Int(1))]]) {
        QueryAction::FetchRows(sql, _) => assert_eq!(sql, "SELECT 2 AS b"),
        _ => panic!("expected the follow-up"),
    }
    match run.rows_fetched(vec![column("b")], Vec::new()) {
        QueryAction::Finished(out) => {
            assert_eq!(out.columns[0].name, "a");
            assert_eq!(out.rows.len(), 1);
            let f = out.followup.expect("follow-up result");
            assert_eq!(f.columns[0].name, "b");
            assert!(out.arrow.is_none());
        }
        _ => panic!("expected the output"),
    }
    assert!(matches!(run.fetch_failed(), QueryAction::Aborted));
}

#[test]
fn query_run_in_arrow_mode_without_followup() {
    let mut run = QueryRun::new(plan_query(&query_request(None, true), &no_env()));
    let mut action = run.start();
    while let QueryAction::Execute(_) = action {
        action = run.batch_done(true);
    }
    match action {
        QueryAction::FetchArrow(sql) => assert_eq!(sql, "SELECT 1 AS a"),
        _ => panic!("expected an Arrow fetch"),
    }
    let ipc = ArrowIpc { schema: "Zm9v".to_string(), batches: Vec::new() };
    match run.arrow_fetched(vec![column("a")], ipc) {
        QueryAction::Finished(out) => {
            assert!(out.rows.is_empty());
            assert!(out.followup.is_none());
            assert_eq!(out.arrow.map(|a| a.schema), Some("Zm9v".to_string()));
        }
        _ => panic!("expected the output"),
    }
}

#[test]
fn query_run_aborts_on_failures() {
    let mut run = QueryRun::new(plan_query(&query_request(None, false), &no_env()));
    assert!(matches!(run.start(), QueryAction::Execute(_)));
    assert!(matches!(run.batch_done(false), QueryAction::Aborted));
    assert!(matches!(run.batch_done(true), QueryAction::Aborted));

    let mut run = QueryRun::new(plan_query(&query_request(Some("SELECT 2"), false), &no_env()));
    let mut action = run.start();
    while let QueryAction::Execute(_) = action {
        action = run.batch_done(true);
    }
    assert!(matches!(action, QueryAction::FetchRows(_, _)));
    assert!(matches!(run.fetch_failed(), QueryAction::Aborted));

    let mut fresh = QueryRun::new(plan_query(&query_request(None, false), &no_env()));
    assert!(matches!(fresh.rows_fetched(Vec::new(), Vec::new()), QueryAction::Aborted));

    // Rows reported for a statement fetched as Arrow abort the run.
    let mut arrow_run = QueryRun::new(plan_query(&query_request(None, true), &no_env()));
    let mut action = arrow_run.start();
    while let QueryAction::Execute(_) = action {
        action = arrow_run.batch_done(true);
    }
    assert!(matches!(action, QueryAction::FetchArrow(_)));
    assert!(matches!(arrow_run.rows_fetched(Vec::new(), Vec::new()), QueryAction::Aborted));
}

#[test]
fn only_batches_with_rows_are_sent_in_order() {
    let messages = vec![(b"ab".to_vec(), 2usize), (Vec::new(), 0usize), (b"c".to_vec(), 1usize)];
    let batches = ipc_batches(&messages);
    let kept: Vec<(&str, usize)> = batches.iter().map(|b| (b.data.as_str(), b.row_count)).collect();
    assert_eq!(kept, vec![("YWI=", 2), ("Yw==", 1)]);
    assert!(ipc_batches(&vec![(Vec::new(), 0usize)]).is_empty());
}
