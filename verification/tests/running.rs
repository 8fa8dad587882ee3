//! Runs: what they execute, in which order, and what they report.

use forge::map::TextMap;
use forge::model::auth::AuthConfig;
use forge::model::request::{RequestDef, ScriptLang, SuiteHooks};
use forge::model::Method;
use forge::runner::data::{load_iterations, rows_of_json, DataSource};
use forge::runner::events::{Label, RunSession};
use forge::runner::hooks::{note_before_hook, reversed, scopes_to_enter, scopes_to_leave, HookKind};
use forge::runner::plan::{norm, plan_requests, RunError, RunScope};
use forge::runner::report::{escape_attribute, escape_text, junit_xml};
use forge::runner::run::{
    after_send, before_send, note_extraction, unanswered, AssertionOutcome, ExecutionResult, ExtractReport, NextStep,
    RequestOutcome, RunEvent, RunMachine, RunSummary, ScriptOutput, Slot,
};
use forge::store::{CollectionNode, FolderNode, NodeMeta, RequestNode, TreeNode};

fn sample(status: u16) -> ExecutionResult {
    ExecutionResult {
        status,
        headers: vec![("Content-Type".to_string(), "application/json".to_string())],
        body: b"{}".to_vec(),
        total_ms: 5,
    }
}

fn outcome(name: &str, iteration: usize, result: Result<ExecutionResult, String>) -> RequestOutcome {
    RequestOutcome {
        id: "id".to_string(),
        name: name.to_string(),
        iteration,
        result,
        assertions: Vec::new(),
        script_log: Vec::new(),
        script_error: None,
        extracted: Vec::new(),
    }
}

#[test]
fn junit_xml_escapes_special_characters() {
    let mut o = outcome("R & <B>", 0, Ok(sample(500)));
    o.assertions.push(AssertionOutcome::fail("check \"x\" < 5", "expected <5> got \"6\" & more"));
    let summary = RunSummary { total: 1, passed: 0, failed: 1, skipped: 0, duration_ms: 5 };

    let xml = junit_xml("Suite <1>", &vec![o], &summary);

    assert!(xml.contains("Suite &lt;1&gt;"));
    assert!(xml.contains("R &amp; &lt;B&gt;"));
    assert!(xml.contains("<failure message=\"check &quot;x&quot; &lt; 5\">"));
    assert!(xml.contains("expected &lt;5&gt; got \"6\" &amp; more"));
}

#[test]
fn junit_xml_reports_transport_errors_as_error_elements() {
    let o = outcome("Broken", 2, Err("connection refused".to_string()));
    let summary = RunSummary { total: 1, passed: 0, failed: 1, skipped: 0, duration_ms: 1 };

    let xml = junit_xml("Suite", &vec![o], &summary);

    assert!(xml.contains("[iter 2] Broken"));
    assert!(xml.contains("<error message=\"connection refused\">connection refused</error>"));
}

#[test]
fn escaping_touches_only_markup() {
    assert_eq!(escape_text("a<b>&\"c\""), "a&lt;b&gt;&amp;\"c\"");
    assert_eq!(escape_attribute("a<b>&\"c\""), "a&lt;b&gt;&amp;&quot;c&quot;");
}

fn meta(name: &str, dir: &str) -> NodeMeta {
    NodeMeta {
        name: name.to_string(),
        dir: dir.to_string(),
        variables: TextMap::new(),
        auth: AuthConfig::Inherit,
        hooks: SuiteHooks {
            before_all: None,
            before_each: None,
            after_each: None,
            after_all: None,
            language: ScriptLang::Rhai,
        },
    }
}

fn request(name: &str, file: &str) -> TreeNode {
    TreeNode::Request(RequestNode {
        file: file.to_string(),
        def: RequestDef::new(name, Method::Get, "https://x"),
    })
}

fn collections() -> Vec<CollectionNode> {
    let mut folder = meta("Admin", "collections/pay/admin");
    folder.variables.insert("v".to_string(), "folder".to_string());
    vec![CollectionNode {
        meta: meta("Pay", "collections/pay"),
        children: vec![
            request("A", "collections/pay/a.request.json"),
            TreeNode::Folder(FolderNode {
                meta: folder,
                children: vec![request("B", "collections/pay/admin/b.request.json")],
            }),
            request("C", "collections/pay/c.request.json"),
        ],
    }]
}

fn names(scope: RunScope) -> Result<Vec<String>, RunError> {
    let cols = collections();
    let plan = plan_requests(&cols, &scope)?;
    Ok(plan.iter().map(|p| p.node.def.name.clone()).collect())
}

#[test]
fn scopes_cover_what_they_name() {
    assert_eq!(names(RunScope::Workspace).unwrap(), vec!["A", "B", "C"]);
    assert_eq!(names(RunScope::Collection("collections/pay/".to_string())).unwrap(), vec!["A", "B", "C"]);
    assert_eq!(names(RunScope::Folder("/collections/pay/admin".to_string())).unwrap(), vec!["B"]);
    assert_eq!(names(RunScope::Request("collections/pay/c.request.json".to_string())).unwrap(), vec!["C"]);
    assert!(matches!(names(RunScope::Folder("nowhere".to_string())), Err(RunError::ScopeNotFound(_))));
    assert!(matches!(names(RunScope::Request("nowhere".to_string())), Err(RunError::ScopeNotFound(_))));
    assert!(matches!(names(RunScope::Collection("nowhere".to_string())), Err(RunError::ScopeNotFound(_))));
}

#[test]
fn a_planned_request_knows_its_ancestors() {
    let cols = collections();
    let plan = plan_requests(&cols, &RunScope::Workspace).unwrap();
    assert_eq!(plan[1].scopes.iter().map(|m| m.name.as_str()).collect::<Vec<_>>(), vec!["Pay", "Admin"]);
    assert_eq!(plan[1].folder_vars[0].get("v").unwrap(), "folder");
    assert_eq!(plan[1].auth_chain.len(), 2);
}

#[test]
fn slashes_at_the_ends_do_not_count() {
    assert_eq!(norm("/a/b/"), "a/b");
    assert_eq!(norm("//"), "");
}

fn trace(machine: &mut RunMachine, fails: &[(usize, usize)]) -> Vec<(usize, usize, bool)> {
    let mut seen = Vec::new();
    loop {
        match machine.next(false) {
            NextStep::Finished => return seen,
            NextStep::Execute { iteration, index, announce } => {
                seen.push((iteration, index, announce));
                machine.record(!fails.contains(&(iteration, index)));
            }
        }
    }
}

#[test]
fn every_request_runs_in_every_iteration() {
    let mut m = RunMachine::new(vec![false, true, false], 2, false);
    let seen = trace(&mut m, &[(0, 2)]);
    assert_eq!(seen, vec![(0, 0, true), (0, 2, false), (1, 0, true), (1, 2, false)]);
    let s = m.summary(7);
    assert_eq!((s.total, s.passed, s.failed, s.skipped, s.duration_ms), (6, 3, 1, 2, 7));
}

#[test]
fn a_failure_may_stop_the_run() {
    let mut m = RunMachine::new(vec![false, false], 1, true);
    let seen = trace(&mut m, &[(0, 0)]);
    assert_eq!(seen, vec![(0, 0, true)]);
    let s = m.summary(0);
    assert_eq!((s.total, s.passed, s.failed, s.skipped), (2, 0, 1, 1));
}

#[test]
fn a_skipped_iteration_is_not_announced() {
    let label = Label { id: "a".to_string(), name: "A".to_string() };
    let (mut session, first) = RunSession::start(RunMachine::new(vec![false], 2, true), vec![label]);
    let mut events = vec![first];
    loop {
        let (step, mut told) = session.next(false, 5);
        events.append(&mut told);
        if step == NextStep::Finished {
            break;
        }
        let slot = Slot { id: "a".to_string(), name: "A".to_string(), iteration: 0 };
        events.push(session.finish(unanswered(slot, "boom".to_string(), vec![], None)));
    }
    let s = session.machine.summary(5);
    assert_eq!((s.total, s.failed, s.skipped), (2, 1, 1));
    assert_eq!(events.iter().filter(|e| matches!(e, RunEvent::IterationStarted { .. })).count(), 1);
    assert!(matches!(events[0], RunEvent::RunStarted { total: 2, iterations: 2 }));
    assert_eq!(events.iter().filter(|e| matches!(e, RunEvent::RequestFinished(_))).count(), 1);
    assert!(matches!(events.last(), Some(RunEvent::RunFinished(end)) if *end == s));
}

#[test]
fn requests_may_be_passed_over() {
    let mut m = RunMachine::new(vec![true], 1, false);
    assert!(trace(&mut m, &[]).is_empty());
    let s = m.summary(0);
    assert_eq!((s.total, s.passed, s.failed, s.skipped), (1, 0, 0, 1));
}

#[test]
fn runtime_values_start_afresh() {
    let mut m = RunMachine::new(vec![false, false], 2, false);
    assert_eq!(m.next(false), NextStep::Execute { iteration: 0, index: 0, announce: true });
    let report =
        ExtractReport { values: vec![("token".to_string(), "row1-token".to_string())], errors: vec![] };
    let mut log = Vec::new();
    note_extraction(&report, &mut m.runtime, &mut log);
    m.record(true);
    assert_eq!(m.next(false), NextStep::Execute { iteration: 0, index: 1, announce: false });
    assert_eq!(m.runtime.get("token").unwrap(), "row1-token");
    m.record(true);
    assert_eq!(m.next(false), NextStep::Execute { iteration: 1, index: 0, announce: true });
    assert!(m.runtime.get("token").is_none());
}

#[test]
fn a_cancelled_run_skips_the_rest() {
    let mut m = RunMachine::new(vec![false, false], 1, false);
    m.next(false);
    m.record(true);
    assert_eq!(m.next(true), NextStep::Finished);
    let s = m.summary(0);
    assert_eq!((s.passed, s.skipped), (1, 1));
}

#[test]
fn csv_rows_become_iterations() {
    let data = Some(DataSource::CsvFile("items.csv".to_string(), Ok("id,name\n1,a\n2,\"b,c\"\n".as_bytes().to_vec())));
    let rows = load_iterations(&data).unwrap();
    assert_eq!(rows.len(), 2);
    assert_eq!(rows[1].get("id").unwrap(), "2");
    assert_eq!(rows[1].get("name").unwrap(), "b,c");
}

#[test]
fn json_rows_become_iterations() {
    let v = forge::json::parse(r#"[{"id":10,"s":"x"},{"id":20}]"#).unwrap();
    let rows = rows_of_json("items.json", &v).unwrap();
    assert_eq!(rows[0].get("id").unwrap(), "10");
    assert_eq!(rows[0].get("s").unwrap(), "x");
    assert_eq!(rows[1].get("id").unwrap(), "20");
    let v = forge::json::parse("{}").unwrap();
    assert!(matches!(rows_of_json("items.json", &v), Err(RunError::Data(_))));
}

#[test]
fn without_data_there_is_one_iteration() {
    assert_eq!(load_iterations(&None).unwrap().len(), 1);
}

fn slot() -> Slot {
    Slot { id: "a".to_string(), name: "A".to_string(), iteration: 0 }
}

fn script(error: Option<&str>) -> ScriptOutput {
    ScriptOutput {
        log: vec!["line".to_string()],
        vars_set: vec![("x".to_string(), "1".to_string())],
        assertions: vec![AssertionOutcome::pass("from script")],
        error: error.map(|e| e.to_string()),
    }
}

#[test]
fn a_failing_pre_script_keeps_the_request_back() {
    let mut runtime = TextMap::new();
    let err = before_send(slot(), None, Some(&script(Some("boom"))), &mut runtime).unwrap_err();
    assert!(err.result.is_err());
    assert!(!err.passed());
    let mut runtime = TextMap::new();
    let (_, log) = before_send(slot(), None, Some(&script(None)), &mut runtime).unwrap();
    assert_eq!(log, vec!["line".to_string()]);
    assert_eq!(runtime.get("x").unwrap(), "1");
}

#[test]
fn post_scripts_add_assertions() {
    let mut runtime = TextMap::new();
    let o = after_send(slot(), sample(200), vec![], vec![], vec![], Some(&script(None)), &mut runtime);
    assert!(o.passed());
    assert_eq!(o.assertions.len(), 1);
    let mut runtime = TextMap::new();
    let o = after_send(slot(), sample(200), vec![], vec![], vec![], Some(&script(Some("boom"))), &mut runtime);
    assert!(!o.passed());
}

fn texts(list: &[&str]) -> Vec<String> {
    list.iter().map(|s| s.to_string()).collect()
}

#[test]
fn scopes_are_entered_outside_in_and_left_inside_out() {
    let chain = texts(&["col", "folder"]);
    assert_eq!(scopes_to_enter(&chain, &texts(&["col"])), texts(&["folder"]));
    assert_eq!(reversed(&chain), texts(&["folder", "col"]));
    let chains = vec![texts(&["col", "folder"]), texts(&["col"])];
    assert_eq!(scopes_to_leave(&chain, &chains, &vec![false, false], 0), texts(&["folder"]));
    assert_eq!(scopes_to_leave(&texts(&["col"]), &chains, &vec![false, false], 1), texts(&["col"]));
    assert_eq!(scopes_to_leave(&chain, &chains, &vec![false, true], 0), texts(&["folder", "col"]));
}

#[test]
fn hooks_say_which_failed() {
    let mut log = Vec::new();
    let mut runtime = TextMap::new();
    let error = note_before_hook(HookKind::BeforeAll, &script(Some("boom")), &mut log, &mut runtime);
    assert!(error.unwrap().contains("boom"));
    assert_eq!(runtime.get("x").unwrap(), "1");
}
