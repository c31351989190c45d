//! What the service runs on a DuckDB connection, and in which order.
//!
//! Running a statement is outside work; the decisions around it live here as
//! a small state machine (`BatchRun`): it hands out the batches of a script
//! one at a time, moves on when the previous one succeeded, and stops at the
//! first failure.

use vstd::prelude::*;
use crate::base64::{base64_string, base64_text};
use crate::models::{
    opt_view, ArrowIpc, ArrowIpcBatch, Column, EnvDefaults, ExecuteRequest, QueryOutput, QueryRequest,
    QueryResult, Row,
};
use crate::sql::{
    apply_variables, athena_copy, athena_copy_sql, opt_str_view, pairs_view, resolve_s3_params,
    resolved_s3, s3_setup_batches, set_extension_dir_sql, extension_dir_sql, setup_s3,
    strings_view, substitute, bool_text, contains_text, lemma_request_settings_win,
    lemma_settings_set_each_value, quoted_body, trimmed_endpoint,
};
use crate::text::{is_blank, is_blank_str};

verus! {

broadcast use vstd::string::group_string_axioms;

/// Where a run stands.
#[derive(PartialEq, Eq, Structural, Clone, Copy, Debug)]
pub enum RunState {
    Running,
    Finished,
    Aborted,
}

/// How the batch handed out last went.
#[derive(PartialEq, Eq, Structural, Clone, Copy, Debug)]
pub enum BatchEvent {
    Succeeded,
    Failed,
}

/// What to do next.
#[derive(Debug)]
pub enum BatchAction {
    /// Run this batch on the connection.
    Execute(String),
    /// Every batch ran; the request succeeded.
    Finished,
    /// A batch failed; the request fails with that batch's error.
    Aborted,
}

/// The text of an action.
pub enum ActionView {
    Execute(Seq<char>),
    Finished,
    Aborted,
}

impl View for BatchAction {
    type V = ActionView;

    open spec fn view(&self) -> ActionView {
        match self {
            BatchAction::Execute(s) => ActionView::Execute(s@),
            BatchAction::Finished => ActionView::Finished,
            BatchAction::Aborted => ActionView::Aborted,
        }
    }
}

/// A run as a value: its script, how many batches were handed out, its state.
pub struct RunView {
    pub script: Seq<Seq<char>>,
    pub sent: nat,
    pub state: RunState,
}

/// A run of `script` that has not started.
pub open spec fn fresh_run(script: Seq<Seq<char>>) -> RunView {
    RunView { script, sent: 0, state: RunState::Running }
}

/// One transition: the state after `event` and the action it calls for.
pub open spec fn run_step(r: RunView, event: BatchEvent) -> (RunView, ActionView) {
    match r.state {
        RunState::Running => match event {
            BatchEvent::Failed => (RunView { state: RunState::Aborted, ..r }, ActionView::Aborted),
            BatchEvent::Succeeded => if r.sent < r.script.len() {
                (RunView { sent: r.sent + 1, ..r }, ActionView::Execute(r.script[r.sent as int]))
            } else {
                (RunView { state: RunState::Finished, ..r }, ActionView::Finished)
            },
        },
        RunState::Finished => (r, ActionView::Finished),
        RunState::Aborted => (r, ActionView::Aborted),
    }
}

/// The batches of a script, handed out one at a time.
pub struct BatchRun {
    batches: Vec<String>,
    sent: usize,
    state: RunState,
}

impl View for BatchRun {
    type V = RunView;

    closed spec fn view(&self) -> RunView {
        RunView { script: strings_view(self.batches@), sent: self.sent as nat, state: self.state }
    }
}

impl BatchRun {
    #[verifier::type_invariant]
    spec fn sent_in_range(&self) -> bool {
        self.sent <= self.batches.len()
    }

    /// A run of `batches` that has not started.
    pub fn new(batches: Vec<String>) -> (r: BatchRun)
        ensures
            r@ == fresh_run(strings_view(batches@)),
    {
        BatchRun { batches, sent: 0, state: RunState::Running }
    }

    /// The first action of a run: as after a success of nothing.
    pub fn start(&mut self) -> (a: BatchAction)
        ensures
            (final(self)@, a@) == run_step(old(self)@, BatchEvent::Succeeded),
    {
        self.step(BatchEvent::Succeeded)
    }

    /// Records how the last batch went and says what to do next.
    pub fn step(&mut self, event: BatchEvent) -> (a: BatchAction)
        ensures
            (final(self)@, a@) == run_step(old(self)@, event),
    {
        proof {
            use_type_invariant(&*self);
        }
        match self.state {
            RunState::Running => match event {
                BatchEvent::Failed => {
                    self.state = RunState::Aborted;
                    BatchAction::Aborted
                },
                BatchEvent::Succeeded => {
                    if self.sent < self.batches.len() {
                        let batch = self.batches[self.sent].clone();
                        self.sent = self.sent + 1;
                        BatchAction::Execute(batch)
                    } else {
                        self.state = RunState::Finished;
                        BatchAction::Finished
                    }
                },
            },
            RunState::Finished => BatchAction::Finished,
            RunState::Aborted => BatchAction::Aborted,
        }
    }

    /// The batches of the run, in order.
    pub fn batches(&self) -> (b: &Vec<String>)
        ensures
            strings_view(b@) == self@.script,
    {
        &self.batches
    }
}

/// The batches run right after a connection opens: pointing DuckDB at the
/// configured extension directory, if any.
pub open spec fn connection_batches(env: EnvDefaults) -> Seq<Seq<char>> {
    match env.extension_dir {
        Some(d) => seq![extension_dir_sql(d@)],
        None => seq![],
    }
}

fn open_conn(env: &EnvDefaults) -> (r: Vec<String>)
    ensures
        strings_view(r@) == connection_batches(*env),
{
    let mut r: Vec<String> = Vec::new();
    match &env.extension_dir {
        Some(dir) => r.push(set_extension_dir_sql(dir.as_str())),
        None => {},
    }
    assert(strings_view(r@) =~= connection_batches(*env));
    r
}

/// The script run once at startup: install `httpfs` so that later requests
/// load it from disk.
pub open spec fn preflight_batches(env: EnvDefaults) -> Seq<Seq<char>> {
    connection_batches(env).push("INSTALL httpfs;"@)
}

/// The startup script: installs the `httpfs` extension on a fresh connection.
pub fn preflight(env: &EnvDefaults) -> (r: BatchRun)
    ensures
        r@ == fresh_run(preflight_batches(*env)),
{
    let mut batches = open_conn(env);
    batches.push("INSTALL httpfs;".to_owned());
    assert(strings_view(batches@) =~= preflight_batches(*env));
    BatchRun::new(batches)
}

fn opt_as_str(o: &Option<String>) -> (r: Option<&str>)
    ensures
        opt_str_view(r) == opt_view(*o),
{
    match o {
        Some(s) => Some(s.as_str()),
        None => None,
    }
}

/// The placeholder values of a request, in order.
pub open spec fn request_variables(req: ExecuteRequest) -> Seq<(Seq<char>, Seq<char>)> {
    match req.variables {
        Some(v) => pairs_view(v@),
        None => seq![],
    }
}

/// The setup statement, if there is one that is not blank, after `prepare`.
pub open spec fn setup_batch(setup: Option<String>, vars: Seq<(Seq<char>, Seq<char>)>) -> Seq<Seq<char>> {
    match setup {
        Some(s) => if is_blank(s@) {
            seq![]
        } else {
            seq![substitute(s@, vars)]
        },
        None => seq![],
    }
}

/// The statement an `/execute` request runs: its SQL with the variables
/// substituted, wrapped in a CSV export when an output path is given
/// (Athena mode), as is otherwise (Firehose mode).
pub open spec fn final_statement(req: ExecuteRequest) -> Seq<char> {
    let sql = substitute(req.sql@, request_variables(req));
    match req.output_s3_path {
        Some(p) => athena_copy_sql(sql, p@),
        None => sql,
    }
}

/// The S3 setup of a request.
pub open spec fn execute_s3_batches(req: ExecuteRequest, env: EnvDefaults) -> Seq<Seq<char>> {
    s3_setup_batches(
        req.s3_endpoint@,
        resolved_s3(
            req.s3_endpoint@,
            opt_view(req.s3_region),
            opt_view(req.s3_access_key),
            opt_view(req.s3_secret_key),
            req.s3_use_ssl,
            opt_view(req.s3_url_style),
            env,
        ),
    )
}

/// Every batch an `/execute` request runs, in order.
pub open spec fn execute_batches(req: ExecuteRequest, env: EnvDefaults) -> Seq<Seq<char>> {
    connection_batches(env) + execute_s3_batches(req, env) + setup_batch(
        req.setup_sql,
        request_variables(req),
    ) + seq![final_statement(req)]
}

fn s3_batches(
    s3_endpoint: &String,
    s3_region: &Option<String>,
    s3_access_key: &Option<String>,
    s3_secret_key: &Option<String>,
    s3_use_ssl: Option<bool>,
    s3_url_style: &Option<String>,
    env: &EnvDefaults,
) -> (r: Vec<String>)
    ensures
        strings_view(r@) == s3_setup_batches(
            s3_endpoint@,
            resolved_s3(
                s3_endpoint@,
                opt_view(*s3_region),
                opt_view(*s3_access_key),
                opt_view(*s3_secret_key),
                s3_use_ssl,
                opt_view(*s3_url_style),
                *env,
            ),
        ),
{
    let (region, access_key, secret_key, use_ssl, url_style) = resolve_s3_params(
        s3_endpoint.as_str(),
        opt_as_str(s3_region),
        opt_as_str(s3_access_key),
        opt_as_str(s3_secret_key),
        s3_use_ssl,
        opt_as_str(s3_url_style),
        env,
    );
    setup_s3(
        s3_endpoint.as_str(),
        region.as_str(),
        access_key.as_str(),
        secret_key.as_str(),
        use_ssl,
        url_style.as_str(),
    )
}

proof fn lemma_strings_view_append(a: Seq<String>, b: Seq<String>)
    ensures
        strings_view(a + b) == strings_view(a) + strings_view(b),
{
    assert(strings_view(a + b) =~= strings_view(a) + strings_view(b));
}

/// The script of an `/execute` request (Firehose or Athena mode), run on one
/// fresh connection: extension directory, `httpfs` and S3 settings, the setup
/// statement if not blank, then the statement itself.
pub fn execute_query(req: ExecuteRequest, env: &EnvDefaults) -> (r: BatchRun)
    ensures
        r@ == fresh_run(execute_batches(req, *env)),
{
    let mut batches = open_conn(env);
    let mut s3 = s3_batches(
        &req.s3_endpoint,
        &req.s3_region,
        &req.s3_access_key,
        &req.s3_secret_key,
        req.s3_use_ssl,
        &req.s3_url_style,
        env,
    );
    let ghost before = batches@;
    let ghost s3_view = s3@;
    batches.append(&mut s3);
    proof {
        lemma_strings_view_append(before, s3_view);
    }
    let no_variables: Vec<(String, String)> = Vec::new();
    let variables = match &req.variables {
        Some(v) => v,
        None => &no_variables,
    };
    assert(pairs_view(variables@) == request_variables(req)) by {
        if req.variables is None {
            assert(pairs_view(variables@) =~= Seq::<(Seq<char>, Seq<char>)>::empty());
        }
    }
    let ghost with_s3 = batches@;
    match &req.setup_sql {
        Some(setup) => {
            if !is_blank_str(setup.as_str()) {
                batches.push(apply_variables(setup.as_str(), variables));
            }
        },
        None => {},
    }
    assert(strings_view(batches@) =~= strings_view(with_s3) + setup_batch(
        req.setup_sql,
        request_variables(req),
    ));
    let sql = apply_variables(req.sql.as_str(), variables);
    let final_sql = match &req.output_s3_path {
        Some(path) => athena_copy(sql.as_str(), path.as_str()),
        None => sql,
    };
    let ghost with_setup = batches@;
    batches.push(final_sql);
    assert(strings_view(batches@) =~= strings_view(with_setup).push(final_statement(req)));
    assert(strings_view(batches@) =~= execute_batches(req, *env));
    BatchRun::new(batches)
}

/// The raw setup statement of a `/query` request, if not blank.
pub open spec fn query_setup_batch(setup: Option<String>) -> Seq<Seq<char>> {
    match setup {
        Some(s) => if is_blank(s@) {
            seq![]
        } else {
            seq![s@]
        },
        None => seq![],
    }
}

/// The batches run before a `/query` statement, in order.
pub open spec fn query_setup_batches(req: QueryRequest, env: EnvDefaults) -> Seq<Seq<char>> {
    connection_batches(env) + s3_setup_batches(
        req.s3_endpoint@,
        resolved_s3(
            req.s3_endpoint@,
            opt_view(req.s3_region),
            opt_view(req.s3_access_key),
            opt_view(req.s3_secret_key),
            req.s3_use_ssl,
            opt_view(req.s3_url_style),
            env,
        ),
    ) + query_setup_batch(req.setup_sql)
}

/// What a `/query` request runs on its connection.
pub struct QueryPlan {
    /// Run first, in order, stopping at the first failure.
    pub setup: Vec<String>,
    /// The statement whose result is returned.
    pub sql: String,
    /// Return the result as Arrow IPC messages instead of rows.
    pub arrow_ipc: bool,
    /// Encode row values losslessly.
    pub typed_values: bool,
    /// Run afterwards on the same connection; its rows are returned too.
    pub followup: Option<String>,
}

/// The follow-up statement, if there is one that is not blank.
pub open spec fn followup_of(followup: Option<String>) -> Option<Seq<char>> {
    match followup {
        Some(f) => if is_blank(f@) {
            None
        } else {
            Some(f@)
        },
        None => None,
    }
}

/// Plans a `/query` request: connection and S3 setup, the setup statement if
/// not blank, the statement, and the follow-up if not blank.
pub fn plan_query(req: &QueryRequest, env: &EnvDefaults) -> (p: QueryPlan)
    ensures
        strings_view(p.setup@) == query_setup_batches(*req, *env),
        p.sql@ == req.sql@,
        p.arrow_ipc == req.arrow_ipc,
        p.typed_values == req.typed_values,
        opt_view(p.followup) == followup_of(req.followup_sql),
{
    let mut batches = open_conn(env);
    let mut s3 = s3_batches(
        &req.s3_endpoint,
        &req.s3_region,
        &req.s3_access_key,
        &req.s3_secret_key,
        req.s3_use_ssl,
        &req.s3_url_style,
        env,
    );
    let ghost before = batches@;
    let ghost s3_view = s3@;
    batches.append(&mut s3);
    proof {
        lemma_strings_view_append(before, s3_view);
    }
    match &req.setup_sql {
        Some(setup) => {
            if !is_blank_str(setup.as_str()) {
                batches.push(setup.clone());
            }
        },
        None => {},
    }
    assert(strings_view(batches@) =~= query_setup_batches(*req, *env));
    let followup = match &req.followup_sql {
        Some(f) => if is_blank_str(f.as_str()) {
            None
        } else {
            Some(f.clone())
        },
        None => None,
    };
    QueryPlan {
        setup: batches,
        sql: req.sql.clone(),
        arrow_ipc: req.arrow_ipc,
        typed_values: req.typed_values,
        followup,
    }
}

/// The actions a run takes in answer to `events`, one per event.
pub open spec fn run_events(r: RunView, events: Seq<BatchEvent>) -> Seq<ActionView>
    decreases events.len(),
{
    if events.len() == 0 {
        seq![]
    } else {
        seq![run_step(r, events[0]).1] + run_events(run_step(r, events[0]).0, events.drop_first())
    }
}

/// `n` successes in a row.
pub open spec fn successes(n: nat) -> Seq<BatchEvent> {
    Seq::new(n, |i: int| BatchEvent::Succeeded)
}

/// Executing each batch of `script`, in order.
pub open spec fn executions(script: Seq<Seq<char>>) -> Seq<ActionView> {
    Seq::new(script.len(), |i: int| ActionView::Execute(script[i]))
}

/// `n` aborts in a row.
pub open spec fn aborts(n: nat) -> Seq<ActionView> {
    Seq::new(n, |i: int| ActionView::Aborted)
}

proof fn lemma_succeeding_from(r: RunView)
    requires
        r.state == RunState::Running,
        r.sent <= r.script.len(),
    ensures
        run_events(r, successes((r.script.len() - r.sent + 1) as nat)) == executions(r.script).skip(
            r.sent as int,
        ).push(ActionView::Finished),
    decreases r.script.len() - r.sent,
{
    let n = (r.script.len() - r.sent + 1) as nat;
    let ev = successes(n);
    assert(ev.drop_first() =~= successes((n - 1) as nat));
    if r.sent < r.script.len() {
        let next = RunView { sent: r.sent + 1, ..r };
        lemma_succeeding_from(next);
        assert(executions(r.script).skip(r.sent as int) =~= seq![
            ActionView::Execute(r.script[r.sent as int]),
        ] + executions(r.script).skip(r.sent + 1int));
        assert(run_events(r, ev) =~= executions(r.script).skip(r.sent as int).push(
            ActionView::Finished,
        ));
    } else {
        let done = RunView { state: RunState::Finished, ..r };
        assert(ev.drop_first() =~= Seq::<BatchEvent>::empty());
        assert(run_events(done, ev.drop_first()) =~= Seq::<ActionView>::empty());
        assert(executions(r.script).skip(r.sent as int) =~= Seq::<ActionView>::empty());
        assert(run_events(r, ev) =~= executions(r.script).skip(r.sent as int).push(
            ActionView::Finished,
        ));
    }
}

/// When every batch succeeds, a run executes exactly the batches of its
/// script, each once and in order, and then finishes.
pub proof fn lemma_successful_run_executes_script(script: Seq<Seq<char>>)
    ensures
        run_events(fresh_run(script), successes(script.len() + 1)) == executions(script).push(
            ActionView::Finished,
        ),
{
    lemma_succeeding_from(fresh_run(script));
    assert(executions(script).skip(0) =~= executions(script));
}

proof fn lemma_aborted_stays(r: RunView, events: Seq<BatchEvent>)
    requires
        r.state == RunState::Aborted,
    ensures
        run_events(r, events) == aborts(events.len()),
    decreases events.len(),
{
    if events.len() > 0 {
        lemma_aborted_stays(r, events.drop_first());
        assert(run_events(r, events) =~= aborts(events.len()));
    } else {
        assert(run_events(r, events) =~= aborts(events.len()));
    }
}

proof fn lemma_failure_from(r: RunView, n: nat, rest: Seq<BatchEvent>)
    requires
        r.state == RunState::Running,
        r.sent + n <= r.script.len(),
    ensures
        run_events(r, successes(n) + seq![BatchEvent::Failed] + rest) == executions(r.script).subrange(
            r.sent as int,
            (r.sent + n) as int,
        ) + seq![ActionView::Aborted] + aborts(rest.len()),
    decreases n,
{
    let ev = successes(n) + seq![BatchEvent::Failed] + rest;
    if n == 0 {
        assert(ev =~= seq![BatchEvent::Failed] + rest);
        assert(ev.drop_first() =~= rest);
        lemma_aborted_stays(RunView { state: RunState::Aborted, ..r }, rest);
        assert(run_events(r, ev) =~= executions(r.script).subrange(r.sent as int, (r.sent + n) as int)
            + seq![ActionView::Aborted] + aborts(rest.len()));
    } else {
        let next = RunView { sent: r.sent + 1, ..r };
        assert(ev.drop_first() =~= successes((n - 1) as nat) + seq![BatchEvent::Failed] + rest);
        lemma_failure_from(next, (n - 1) as nat, rest);
        assert(run_events(r, ev) =~= executions(r.script).subrange(r.sent as int, (r.sent + n) as int)
            + seq![ActionView::Aborted] + aborts(rest.len()));
    }
}

/// A failed batch stops the run: the batches handed out are the first `n` of
/// the script, in order, and from the failure on every answer is `Aborted`.
pub proof fn lemma_failure_stops_run(script: Seq<Seq<char>>, n: nat, rest: Seq<BatchEvent>)
    requires
        n <= script.len(),
    ensures
        run_events(fresh_run(script), successes(n) + seq![BatchEvent::Failed] + rest)
            == executions(script).take(n as int) + seq![ActionView::Aborted] + aborts(rest.len()),
{
    lemma_failure_from(fresh_run(script), n, rest);
    assert(executions(script).subrange(0, n as int) =~= executions(script).take(n as int));
}

/// Whether a record batch becomes an IPC message: empty batches are skipped.
pub fn sends_batch(row_count: usize) -> (b: bool)
    ensures
        b == (row_count != 0),
{
    row_count != 0
}

/// One encoded record batch, as returned: its message in base64, and its rows.
pub fn ipc_batch(message: &[u8], row_count: usize) -> (b: ArrowIpcBatch)
    ensures
        b.data@ == base64_text(message@),
        b.row_count == row_count,
{
    ArrowIpcBatch { data: base64_string(message), row_count }
}

/// The encoded batches and their row counts, as plain values.
pub open spec fn messages_view(m: Seq<(Vec<u8>, usize)>) -> Seq<(Seq<u8>, usize)> {
    Seq::new(m.len(), |i: int| (m[i].0@, m[i].1))
}

/// The batches as returned, as plain values.
pub open spec fn ipc_batches_view(b: Seq<ArrowIpcBatch>) -> Seq<(Seq<char>, usize)> {
    Seq::new(b.len(), |i: int| (b[i].data@, b[i].row_count))
}

/// The batches that are sent, in order: those with rows, each as its message
/// in base64 with its row count.
pub open spec fn sent_batches(m: Seq<(Seq<u8>, usize)>) -> Seq<(Seq<char>, usize)>
    decreases m.len(),
{
    if m.len() == 0 {
        seq![]
    } else if m.last().1 != 0 {
        sent_batches(m.drop_last()).push((base64_text(m.last().0), m.last().1))
    } else {
        sent_batches(m.drop_last())
    }
}

/// The batch list of a result: each record batch's message (empty for a
/// batch without rows, which is never encoded) and row count, in order;
/// only batches with rows are kept.
pub fn ipc_batches(messages: &Vec<(Vec<u8>, usize)>) -> (r: Vec<ArrowIpcBatch>)
    ensures
        ipc_batches_view(r@) == sent_batches(messages_view(messages@)),
{
    let mut r: Vec<ArrowIpcBatch> = Vec::new();
    let mut i: usize = 0;
    while i < messages.len()
        invariant
            i <= messages.len(),
            ipc_batches_view(r@) == sent_batches(messages_view(messages@).take(i as int)),
        decreases messages.len() - i,
    {
        let ghost m = messages_view(messages@);
        assert(m.take(i + 1).drop_last() =~= m.take(i as int));
        assert(m.take(i + 1).last() == (messages@[i as int].0@, messages@[i as int].1));
        if sends_batch(messages[i].1) {
            let b = ipc_batch(messages[i].0.as_slice(), messages[i].1);
            let ghost prev = r@;
            r.push(b);
            assert(ipc_batches_view(r@) =~= ipc_batches_view(prev).push((b.data@, b.row_count)));
        }
        i += 1;
    }
    assert(messages_view(messages@).take(messages.len() as int) =~= messages_view(messages@));
    r
}

/// A result as Arrow IPC: the schema message in base64, then the batches.
pub fn ipc_result(schema_message: &[u8], batches: Vec<ArrowIpcBatch>) -> (r: ArrowIpc)
    ensures
        r.schema@ == base64_text(schema_message@),
        r.batches == batches,
{
    ArrowIpc { schema: base64_string(schema_message), batches }
}

/// The rows fetched for the statement, with its columns.
pub struct MainResult {
    pub columns: Vec<Column>,
    pub rows: Vec<Row>,
    pub arrow: Option<ArrowIpc>,
}

/// Where a `/query` run stands.
#[derive(PartialEq, Eq, Structural, Clone, Copy, Debug)]
pub enum QueryStage {
    /// Running the setup batches.
    Setup,
    /// Waiting for the statement's result.
    Statement,
    /// Waiting for the follow-up's result.
    Followup,
    /// Finished or aborted.
    Done,
}

/// What a `/query` run needs done next.
pub enum QueryAction {
    /// Run this setup batch; report with `batch_done`.
    Execute(String),
    /// Run this statement and return its rows, encoded losslessly when the
    /// flag is set; report with `rows_fetched` or `fetch_failed`.
    FetchRows(String, bool),
    /// Run this statement and return it as Arrow IPC messages; report with
    /// `arrow_fetched` or `fetch_failed`.
    FetchArrow(String),
    /// The request succeeded with this output.
    Finished(QueryOutput),
    /// The request failed with the error of the last step (or the run was
    /// driven out of order).
    Aborted,
}

/// The steps of a `/query` request: its setup batches one at a time, then its
/// statement, then its follow-up if it has one.
pub struct QueryRun {
    setup: BatchRun,
    sql: String,
    arrow_ipc: bool,
    typed_values: bool,
    followup: Option<String>,
    stage: QueryStage,
    main: Option<MainResult>,
}

/// The action that fetches a statement's result.
pub open spec fn fetch_action(sql: String, arrow_ipc: bool, typed_values: bool) -> QueryAction {
    if arrow_ipc {
        QueryAction::FetchArrow(sql)
    } else {
        QueryAction::FetchRows(sql, typed_values)
    }
}

impl QueryRun {
    /// The stage the run is in.
    pub closed spec fn stage(&self) -> QueryStage {
        self.stage
    }

    /// The run of the setup batches.
    pub closed spec fn setup(&self) -> RunView {
        self.setup@
    }

    /// The statement's text.
    pub closed spec fn statement(&self) -> String {
        self.sql
    }

    /// Whether the statement's result is fetched as Arrow IPC.
    pub closed spec fn arrow_ipc(&self) -> bool {
        self.arrow_ipc
    }

    /// Whether rows are encoded losslessly.
    pub closed spec fn typed_values(&self) -> bool {
        self.typed_values
    }

    /// The follow-up statement, if any.
    pub closed spec fn followup(&self) -> Option<String> {
        self.followup
    }

    /// The statement's result, once fetched.
    pub closed spec fn main_result(&self) -> Option<MainResult> {
        self.main
    }

    /// A run of `plan` that has not started.
    pub fn new(plan: QueryPlan) -> (r: QueryRun)
        ensures
            r.stage() == QueryStage::Setup,
            r.setup() == fresh_run(strings_view(plan.setup@)),
            r.statement() == plan.sql,
            r.arrow_ipc() == plan.arrow_ipc,
            r.typed_values() == plan.typed_values,
            r.followup() == plan.followup,
            r.main_result() is None,
    {
        QueryRun {
            setup: BatchRun::new(plan.setup),
            sql: plan.sql,
            arrow_ipc: plan.arrow_ipc,
            typed_values: plan.typed_values,
            followup: plan.followup,
            stage: QueryStage::Setup,
            main: None,
        }
    }

    /// The first action of a run: as after a setup batch that succeeded.
    pub fn start(&mut self) -> (a: QueryAction)
        ensures
            final(self).statement() == old(self).statement(),
            final(self).arrow_ipc() == old(self).arrow_ipc(),
            final(self).typed_values() == old(self).typed_values(),
            final(self).followup() == old(self).followup(),
            final(self).main_result() == old(self).main_result(),
            batch_done_post(*old(self), true, *final(self), a),
    {
        self.batch_done(true)
    }

    /// Records how the last setup batch went and says what to do next.
    pub fn batch_done(&mut self, ok: bool) -> (a: QueryAction)
        ensures
            final(self).statement() == old(self).statement(),
            final(self).arrow_ipc() == old(self).arrow_ipc(),
            final(self).typed_values() == old(self).typed_values(),
            final(self).followup() == old(self).followup(),
            final(self).main_result() == old(self).main_result(),
            batch_done_post(*old(self), ok, *final(self), a),
    {
        if self.stage != QueryStage::Setup {
            self.stage = QueryStage::Done;
            return QueryAction::Aborted;
        }
        let event = if ok {
            BatchEvent::Succeeded
        } else {
            BatchEvent::Failed
        };
        match self.setup.step(event) {
            BatchAction::Execute(sql) => QueryAction::Execute(sql),
            BatchAction::Aborted => {
                self.stage = QueryStage::Done;
                QueryAction::Aborted
            },
            BatchAction::Finished => {
                self.stage = QueryStage::Statement;
                if self.arrow_ipc {
                    QueryAction::FetchArrow(self.sql.clone())
                } else {
                    QueryAction::FetchRows(self.sql.clone(), self.typed_values)
                }
            },
        }
    }

    /// Records the rows the last fetch returned and says what to do next.
    pub fn rows_fetched(&mut self, columns: Vec<Column>, rows: Vec<Row>) -> (a: QueryAction)
        ensures
            final(self).setup() == old(self).setup(),
            final(self).statement() == old(self).statement(),
            final(self).arrow_ipc() == old(self).arrow_ipc(),
            final(self).typed_values() == old(self).typed_values(),
            final(self).followup() == old(self).followup(),
            rows_fetched_post(*old(self), columns, rows, *final(self), a),
    {
        match self.stage {
            QueryStage::Statement => {
                if self.arrow_ipc {
                    self.stage = QueryStage::Done;
                    return QueryAction::Aborted;
                }
                self.statement_done(MainResult { columns, rows, arrow: None })
            },
            QueryStage::Followup => {
                self.stage = QueryStage::Done;
                match self.main.take() {
                    Some(m) => QueryAction::Finished(
                        QueryOutput {
                            columns: m.columns,
                            rows: m.rows,
                            followup: Some(QueryResult { columns, rows }),
                            arrow: m.arrow,
                        },
                    ),
                    None => QueryAction::Aborted,
                }
            },
            _ => {
                self.stage = QueryStage::Done;
                QueryAction::Aborted
            },
        }
    }

    /// Records the Arrow IPC messages the statement's fetch returned and says
    /// what to do next.
    pub fn arrow_fetched(&mut self, columns: Vec<Column>, arrow: ArrowIpc) -> (a: QueryAction)
        ensures
            final(self).setup() == old(self).setup(),
            final(self).statement() == old(self).statement(),
            final(self).arrow_ipc() == old(self).arrow_ipc(),
            final(self).typed_values() == old(self).typed_values(),
            final(self).followup() == old(self).followup(),
            arrow_fetched_post(*old(self), columns, arrow, *final(self), a),
    {
        if self.stage == QueryStage::Statement && self.arrow_ipc {
            self.statement_done(MainResult { columns, rows: Vec::new(), arrow: Some(arrow) })
        } else {
            self.stage = QueryStage::Done;
            QueryAction::Aborted
        }
    }

    /// Records that the last fetch failed: the request fails.
    pub fn fetch_failed(&mut self) -> (a: QueryAction)
        ensures
            final(self).setup() == old(self).setup(),
            final(self).stage() == QueryStage::Done,
            a is Aborted,
    {
        self.stage = QueryStage::Done;
        QueryAction::Aborted
    }

    fn statement_done(&mut self, m: MainResult) -> (a: QueryAction)
        ensures
            final(self).setup() == old(self).setup(),
            final(self).statement() == old(self).statement(),
            final(self).arrow_ipc() == old(self).arrow_ipc(),
            final(self).typed_values() == old(self).typed_values(),
            final(self).followup() == old(self).followup(),
            statement_done_post(*old(self), m, *final(self), a),
    {
        match &self.followup {
            Some(followup) => {
                let next = QueryAction::FetchRows(followup.clone(), self.typed_values);
                self.main = Some(m);
                self.stage = QueryStage::Followup;
                next
            },
            None => {
                self.stage = QueryStage::Done;
                QueryAction::Finished(
                    QueryOutput { columns: m.columns, rows: m.rows, followup: None, arrow: m.arrow },
                )
            },
        }
    }
}

/// Once the statement's result `m` is in: the follow-up is fetched, if there
/// is one, or the run finishes with `m` alone.
pub open spec fn statement_done_post(old_run: QueryRun, m: MainResult, new_run: QueryRun, a: QueryAction) -> bool {
    match old_run.followup() {
        Some(followup) => a == QueryAction::FetchRows(followup, old_run.typed_values())
            && new_run.stage() == QueryStage::Followup && new_run.main_result() == Some(m),
        None => a == QueryAction::Finished(
            QueryOutput { columns: m.columns, rows: m.rows, followup: None, arrow: m.arrow },
        ) && new_run.stage() == QueryStage::Done,
    }
}

/// After rows come in: in row mode the statement's rows are its result (no
/// Arrow messages); the follow-up's rows finish the run with both results;
/// rows reported in Arrow mode, or out of those stages, abort the run.
pub open spec fn rows_fetched_post(
    old_run: QueryRun,
    columns: Vec<Column>,
    rows: Vec<Row>,
    new_run: QueryRun,
    a: QueryAction,
) -> bool {
    match old_run.stage() {
        QueryStage::Statement => if old_run.arrow_ipc() {
            a is Aborted && new_run.stage() == QueryStage::Done
        } else {
            statement_done_post(old_run, MainResult { columns, rows, arrow: None }, new_run, a)
        },
        QueryStage::Followup => new_run.stage() == QueryStage::Done && match old_run.main_result() {
            Some(m) => a == QueryAction::Finished(
                QueryOutput {
                    columns: m.columns,
                    rows: m.rows,
                    followup: Some(QueryResult { columns, rows }),
                    arrow: m.arrow,
                },
            ),
            None => a is Aborted,
        },
        _ => a is Aborted && new_run.stage() == QueryStage::Done,
    }
}

/// After Arrow messages come in: in Arrow mode they are the statement's
/// result, with no rows; anywhere else they abort the run.
pub open spec fn arrow_fetched_post(
    old_run: QueryRun,
    columns: Vec<Column>,
    arrow: ArrowIpc,
    new_run: QueryRun,
    a: QueryAction,
) -> bool {
    if old_run.stage() == QueryStage::Statement && old_run.arrow_ipc() {
        match old_run.followup() {
            Some(followup) => {
                &&& a == QueryAction::FetchRows(followup, old_run.typed_values())
                &&& new_run.stage() == QueryStage::Followup
                &&& new_run.main_result() matches Some(m)
                &&& m.columns == columns
                &&& m.rows@.len() == 0
                &&& m.arrow == Some(arrow)
            },
            None => {
                &&& new_run.stage() == QueryStage::Done
                &&& a matches QueryAction::Finished(out)
                &&& out.columns == columns
                &&& out.rows@.len() == 0
                &&& out.followup is None
                &&& out.arrow == Some(arrow)
            },
        }
    } else {
        a is Aborted && new_run.stage() == QueryStage::Done
    }
}

/// After a setup batch: the setup run takes its step; its batches are handed
/// out, its failure aborts the request, and its end fetches the statement.
/// Out of the setup stage, the report aborts the run.
pub open spec fn batch_done_post(old_run: QueryRun, ok: bool, new_run: QueryRun, a: QueryAction) -> bool {
    if old_run.stage() == QueryStage::Setup {
        let (r, step) = run_step(
            old_run.setup(),
            if ok {
                BatchEvent::Succeeded
            } else {
                BatchEvent::Failed
            },
        );
        &&& new_run.setup() == r
        &&& match step {
            ActionView::Execute(sql) => a matches QueryAction::Execute(s) && s@ == sql && new_run.stage()
                == QueryStage::Setup,
            ActionView::Aborted => a is Aborted && new_run.stage() == QueryStage::Done,
            ActionView::Finished => a == fetch_action(
                old_run.statement(),
                old_run.arrow_ipc(),
                old_run.typed_values(),
            ) && new_run.stage() == QueryStage::Statement,
        }
    } else {
        a is Aborted && new_run.stage() == QueryStage::Done && new_run.setup() == old_run.setup()
    }
}

/// The parts of a run that come from its request: no report changes them.
pub open spec fn same_request(a: QueryRun, b: QueryRun) -> bool {
    &&& a.statement() == b.statement()
    &&& a.arrow_ipc() == b.arrow_ipc()
    &&& a.typed_values() == b.typed_values()
    &&& a.followup() == b.followup()
}

proof fn lemma_setup_prefix(script: Seq<Seq<char>>, runs: Seq<QueryRun>, actions: Seq<QueryAction>, k: nat)
    requires
        runs.len() == script.len() + 2,
        actions.len() == script.len() + 1,
        runs[0].stage() == QueryStage::Setup,
        runs[0].setup() == fresh_run(script),
        forall|j: int|
            0 <= j < actions.len() ==> batch_done_post(runs[j], true, runs[j + 1], #[trigger] actions[j])
                && same_request(runs[j], runs[j + 1]),
        k <= script.len(),
    ensures
        runs[k as int].stage() == QueryStage::Setup,
        runs[k as int].setup() == (RunView { script, sent: k, state: RunState::Running }),
        same_request(runs[0], runs[k as int]),
        forall|j: int| 0 <= j < k ==> (#[trigger] actions[j] matches QueryAction::Execute(s) && s@ == script[j]),
    decreases k,
{
    if k > 0 {
        let p = (k - 1) as nat;
        lemma_setup_prefix(script, runs, actions, p);
        assert(batch_done_post(runs[p as int], true, runs[k as int], actions[p as int]));
    }
}

/// A `/query` run whose setup batches all succeed hands out the batches of
/// its setup script in order, one per report, and then asks for its
/// statement's result, as rows or as Arrow messages.
pub proof fn lemma_query_setup_runs_script(script: Seq<Seq<char>>, runs: Seq<QueryRun>, actions: Seq<QueryAction>)
    requires
        runs.len() == script.len() + 2,
        actions.len() == script.len() + 1,
        runs[0].stage() == QueryStage::Setup,
        runs[0].setup() == fresh_run(script),
        forall|j: int|
            0 <= j < actions.len() ==> batch_done_post(runs[j], true, runs[j + 1], #[trigger] actions[j])
                && same_request(runs[j], runs[j + 1]),
    ensures
        forall|j: int| 0 <= j < script.len() ==> (#[trigger] actions[j] matches QueryAction::Execute(s) && s@ == script[j]),
        actions[script.len() as int] == fetch_action(runs[0].statement(), runs[0].arrow_ipc(), runs[0].typed_values()),
        runs[script.len() + 1int].stage() == QueryStage::Statement,
{
    let n = script.len();
    assert forall|j: int| 0 <= j < actions.len() implies batch_done_post(runs[j], true, runs[j + 1], #[trigger] actions[j])
        && same_request(runs[j], runs[j + 1]) by {
        assert(batch_done_post(runs[j], true, runs[j + 1], actions[j]));
        assert(same_request(runs[j], runs[j + 1]));
    }
    lemma_setup_prefix(script, runs, actions, n);
    assert(batch_done_post(runs[n as int], true, runs[n + 1int], actions[n as int]));
}

/// Once its statement is due, a `/query` run finishes with the statement's
/// result (its rows in row mode; its Arrow messages and no rows in Arrow
/// mode) and, exactly when the request has a follow-up, the follow-up's
/// rows, which it fetches next on the same connection.
pub proof fn lemma_query_fetches_statement_then_followup(
    r0: QueryRun,
    columns: Vec<Column>,
    rows: Vec<Row>,
    arrow: ArrowIpc,
    r1: QueryRun,
    a1: QueryAction,
    followup_columns: Vec<Column>,
    followup_rows: Vec<Row>,
    r2: QueryRun,
    a2: QueryAction,
)
    requires
        r0.stage() == QueryStage::Statement,
        if r0.arrow_ipc() {
            arrow_fetched_post(r0, columns, arrow, r1, a1)
        } else {
            rows_fetched_post(r0, columns, rows, r1, a1)
        },
        same_request(r0, r1),
        r0.followup() is Some ==> rows_fetched_post(r1, followup_columns, followup_rows, r2, a2),
    ensures
        r0.followup() matches Some(f) ==> a1 == QueryAction::FetchRows(f, r0.typed_values()),
        ({
            let last = if r0.followup() is Some {
                a2
            } else {
                a1
            };
            &&& last matches QueryAction::Finished(out)
            &&& out.columns == columns
            &&& r0.arrow_ipc() ==> out.rows@.len() == 0 && out.arrow == Some(arrow)
            &&& !r0.arrow_ipc() ==> out.rows == rows && out.arrow is None
            &&& out.followup == if r0.followup() is Some {
                Some(QueryResult { columns: followup_columns, rows: followup_rows })
            } else {
                None
            }
        }),
{
}

/// Whether a request has a setup statement that is not blank.
pub open spec fn has_setup(setup: Option<String>) -> bool {
    match setup {
        Some(s) => !is_blank(s@),
        None => false,
    }
}

/// An `/execute` request runs, after the connection's batches, `LOAD httpfs;`
/// and the S3 settings, then its setup statement with the request's
/// variables substituted (when it has one that is not blank), and last its
/// statement with the variables substituted, wrapped in a CSV export to the
/// output path in Athena mode. The setup statement runs in both modes.
pub proof fn lemma_execute_script(req: ExecuteRequest, env: EnvDefaults)
    ensures
        ({
            let b = execute_batches(req, env);
            let n = connection_batches(env).len();
            let vars = request_variables(req);
            let sql = substitute(req.sql@, vars);
            &&& b.len() == n + 3 + (if has_setup(req.setup_sql) {
                1int
            } else {
                0int
            })
            &&& b[n as int] == "LOAD httpfs;"@
            &&& (match req.setup_sql {
                Some(s) => !is_blank(s@) ==> b[n + 2int] == substitute(s@, vars),
                None => true,
            })
            &&& b.last() == (match req.output_s3_path {
                Some(p) => "COPY ("@ + sql + ") TO '"@ + p@ + "' (FORMAT CSV, HEADER);"@,
                None => sql,
            })
        }),
{
}

/// The output path changes only the last batch of an `/execute` request:
/// with or without it, every batch before the statement is the same.
pub proof fn lemma_output_path_changes_only_the_statement(
    req: ExecuteRequest,
    path: Option<String>,
    env: EnvDefaults,
)
    ensures
        execute_batches((ExecuteRequest { output_s3_path: path, ..req }), env).len() == execute_batches(req, env).len(),
        execute_batches((ExecuteRequest { output_s3_path: path, ..req }), env).drop_last() == execute_batches(
            req,
            env,
        ).drop_last(),
{
    let other = ExecuteRequest { output_s3_path: path, ..req };
    assert(execute_batches(other, env).drop_last() =~= execute_batches(req, env).drop_last());
}

/// An `/execute` request's S3 statement sets every S3 setting the request
/// gives to the request's value, and the endpoint to the request's endpoint
/// without scheme or trailing `/`.
pub proof fn lemma_execute_uses_request_s3(req: ExecuteRequest, env: EnvDefaults)
    ensures
        ({
            let sql = execute_batches(req, env)[connection_batches(env).len() + 1int];
            &&& contains_text(sql, "SET s3_endpoint = '"@ + quoted_body(trimmed_endpoint(req.s3_endpoint@)) + "';"@)
            &&& req.s3_region matches Some(v) ==> contains_text(sql, "SET s3_region = '"@ + quoted_body(v@) + "';"@)
            &&& req.s3_access_key matches Some(v) ==> contains_text(
                sql,
                "SET s3_access_key_id = '"@ + quoted_body(v@) + "';"@,
            )
            &&& req.s3_secret_key matches Some(v) ==> contains_text(
                sql,
                "SET s3_secret_access_key = '"@ + quoted_body(v@) + "';"@,
            )
            &&& req.s3_use_ssl matches Some(v) ==> contains_text(sql, "SET s3_use_ssl = "@ + bool_text(v) + ";"@)
            &&& req.s3_url_style matches Some(v) ==> contains_text(
                sql,
                "SET s3_url_style = '"@ + quoted_body(v@) + "';"@,
            )
        }),
{
    let p = resolved_s3(
        req.s3_endpoint@,
        opt_view(req.s3_region),
        opt_view(req.s3_access_key),
        opt_view(req.s3_secret_key),
        req.s3_use_ssl,
        opt_view(req.s3_url_style),
        env,
    );
    lemma_request_settings_win(
        req.s3_endpoint@,
        opt_view(req.s3_region),
        opt_view(req.s3_access_key),
        opt_view(req.s3_secret_key),
        req.s3_use_ssl,
        opt_view(req.s3_url_style),
        env,
    );
    lemma_settings_set_each_value(trimmed_endpoint(req.s3_endpoint@), p.0, p.1, p.2, p.3, p.4);
}

/// A `/query` request's S3 statement likewise sets every S3 setting the
/// request gives to the request's value, and the endpoint to the request's
/// endpoint without scheme or trailing `/`.
pub proof fn lemma_query_uses_request_s3(req: QueryRequest, env: EnvDefaults)
    ensures
        query_setup_batches(req, env)[connection_batches(env).len() as int] == "LOAD httpfs;"@,
        ({
            let sql = query_setup_batches(req, env)[connection_batches(env).len() + 1int];
            &&& contains_text(sql, "SET s3_endpoint = '"@ + quoted_body(trimmed_endpoint(req.s3_endpoint@)) + "';"@)
            &&& req.s3_region matches Some(v) ==> contains_text(sql, "SET s3_region = '"@ + quoted_body(v@) + "';"@)
            &&& req.s3_access_key matches Some(v) ==> contains_text(
                sql,
                "SET s3_access_key_id = '"@ + quoted_body(v@) + "';"@,
            )
            &&& req.s3_secret_key matches Some(v) ==> contains_text(
                sql,
                "SET s3_secret_access_key = '"@ + quoted_body(v@) + "';"@,
            )
            &&& req.s3_use_ssl matches Some(v) ==> contains_text(sql, "SET s3_use_ssl = "@ + bool_text(v) + ";"@)
            &&& req.s3_url_style matches Some(v) ==> contains_text(
                sql,
                "SET s3_url_style = '"@ + quoted_body(v@) + "';"@,
            )
        }),
{
    let p = resolved_s3(
        req.s3_endpoint@,
        opt_view(req.s3_region),
        opt_view(req.s3_access_key),
        opt_view(req.s3_secret_key),
        req.s3_use_ssl,
        opt_view(req.s3_url_style),
        env,
    );
    lemma_request_settings_win(
        req.s3_endpoint@,
        opt_view(req.s3_region),
        opt_view(req.s3_access_key),
        opt_view(req.s3_secret_key),
        req.s3_use_ssl,
        opt_view(req.s3_url_style),
        env,
    );
    lemma_settings_set_each_value(trimmed_endpoint(req.s3_endpoint@), p.0, p.1, p.2, p.3, p.4);
}

/// `/query` and `/execute` set up a connection alike: for requests with the
/// same endpoint and S3 settings, the connection's batches, `LOAD httpfs;`
/// and the S3 statement are the same.
pub proof fn lemma_query_and_execute_share_s3_setup(q: QueryRequest, e: ExecuteRequest, env: EnvDefaults)
    requires
        q.s3_endpoint@ == e.s3_endpoint@,
        opt_view(q.s3_region) == opt_view(e.s3_region),
        opt_view(q.s3_access_key) == opt_view(e.s3_access_key),
        opt_view(q.s3_secret_key) == opt_view(e.s3_secret_key),
        q.s3_use_ssl == e.s3_use_ssl,
        opt_view(q.s3_url_style) == opt_view(e.s3_url_style),
    ensures
        query_setup_batches(q, env).take(connection_batches(env).len() + 2int) == execute_batches(e, env).take(
            connection_batches(env).len() + 2int,
        ),
{
    let n = connection_batches(env).len() + 2;
    assert(query_setup_batches(q, env).take(n as int) =~= execute_batches(e, env).take(n as int));
}

} // verus!
