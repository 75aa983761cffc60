use rhesis::interop::async_messaging_helper::{lang_server_command, AsyncMessagingHelperRust, HelperCommand};
use rhesis::interop::bridge::{Range, Recommendation};
use rhesis::interop::debounce::{DebounceWorker, WorkerAction, WorkerEvent, WorkerPhase};
use rhesis::languatool::client::LanguageToolClient;
use rhesis::languatool::models::{LanguageToolDto, MatchDto, ReplacementDto};

fn timer(text: &str) -> WorkerEvent {
    WorkerEvent::TimerElapsed(text.to_string())
}

#[test]
fn worker_debounces_and_checks_fresh_texts() {
    let mut w = DebounceWorker::new();
    assert!(matches!(w.start(), WorkerAction::AwaitChange));
    assert!(matches!(w.step(WorkerEvent::Changed), WorkerAction::StartTimer));
    assert!(matches!(w.step(WorkerEvent::Changed), WorkerAction::StartTimer));
    match w.step(timer("hello")) {
        WorkerAction::Check(t) => assert_eq!(t, "hello"),
        _ => panic!("expected a check"),
    }
    assert_eq!(w.phase, WorkerPhase::Checking);
    let recs = vec![Recommendation::default()];
    match w.step(WorkerEvent::Checked(recs)) {
        WorkerAction::Send(s) => assert_eq!(s.0.len(), 1),
        _ => panic!("expected a send"),
    }
    // the same text again is not checked
    assert!(matches!(w.step(WorkerEvent::Changed), WorkerAction::StartTimer));
    assert!(matches!(w.step(timer("hello")), WorkerAction::AwaitChange));
    // a blank text is not checked
    assert!(matches!(w.step(WorkerEvent::Changed), WorkerAction::StartTimer));
    assert!(matches!(w.step(timer(" \n ")), WorkerAction::AwaitChange));
    assert_eq!(w.last_text, "hello");
    assert!(matches!(w.step(WorkerEvent::Changed), WorkerAction::StartTimer));
    assert!(matches!(w.step(timer("hi")), WorkerAction::Check(_)));
}

#[test]
fn worker_ignores_unexpected_events() {
    let mut w = DebounceWorker::new();
    assert!(matches!(w.step(timer("x")), WorkerAction::Ignore));
    assert!(matches!(w.step(WorkerEvent::Checked(vec![])), WorkerAction::Ignore));
    assert_eq!(w.phase, WorkerPhase::Waiting);
    w.step(WorkerEvent::Changed);
    w.step(timer("x"));
    assert!(matches!(w.step(WorkerEvent::Changed), WorkerAction::Ignore));
    assert_eq!(w.phase, WorkerPhase::Checking);
}

#[test]
fn empty_text_is_never_checked_first() {
    let mut w = DebounceWorker::new();
    w.step(WorkerEvent::Changed);
    assert!(matches!(w.step(timer("")), WorkerAction::AwaitChange));
}

fn dto() -> LanguageToolDto {
    LanguageToolDto {
        matches: vec![
            MatchDto {
                offset: 4,
                length: 3,
                replacements: vec![
                    ReplacementDto { value: "the".to_string() },
                    ReplacementDto { value: "then".to_string() },
                ],
            },
            MatchDto { offset: 9, length: 1, replacements: vec![] },
            MatchDto {
                offset: 12,
                length: 5,
                replacements: vec![ReplacementDto { value: "house".to_string() }],
            },
        ],
    }
}

fn expected(start: i32, length: i32, value: &str) -> Recommendation {
    Recommendation {
        range: Range { start, length },
        value: value.to_string(),
        color: "#FF0000".to_string(),
    }
}

#[test]
fn one_red_recommendation_per_replacement() {
    let r = LanguageToolClient::recommendations_from_matches(&dto().matches);
    assert_eq!(
        r,
        vec![expected(4, 3, "the"), expected(4, 3, "then"), expected(12, 5, "house")]
    );
}

#[test]
fn only_a_successful_reply_gives_recommendations() {
    assert_eq!(LanguageToolClient::recommendations_from_response(Some(200), Some(dto())).len(), 3);
    assert!(LanguageToolClient::recommendations_from_response(Some(404), Some(dto())).is_empty());
    assert!(LanguageToolClient::recommendations_from_response(Some(200), None).is_empty());
    assert!(LanguageToolClient::recommendations_from_response(None, None).is_empty());
    assert!(LanguageToolClient::is_success(200));
    assert!(!LanguageToolClient::is_success(500));
}

#[test]
fn check_request() {
    assert_eq!(LanguageToolClient::check_url("2699"), "http://localhost:2699/v2/check");
    let f = LanguageToolClient::form_fields("Hello wrld");
    assert_eq!(
        f,
        vec![
            ("text".to_string(), "Hello wrld".to_string()),
            ("language".to_string(), "auto".to_string()),
            ("enabledOnly".to_string(), "false".to_string()),
        ]
    );
}

#[test]
fn server_command_line() {
    let c = lang_server_command("8081");
    assert_eq!(c.program, "java");
    assert_eq!(
        c.args,
        vec![
            "-cp",
            "languagetool-server.jar",
            "org.languagetool.server.HTTPServer",
            "--config",
            "server.properties",
            "--port",
            "8081",
            "--allow-origin"
        ]
    );
    assert_eq!(c.dir, "/home/dimkar/Downloads/LanguageTool-6.9-SNAPSHOT");
}

fn names(cs: &[HelperCommand]) -> Vec<String> {
    cs.iter()
        .map(|c| match c {
            HelperCommand::StopServer => "stop-server".to_string(),
            HelperCommand::AbortWorker => "abort-worker".to_string(),
            HelperCommand::StartWorker(p) => format!("start-worker:{}", p),
            HelperCommand::StartServer(p) => format!("start-server:{}", p),
        })
        .collect()
}

#[test]
fn restart_replaces_what_runs() {
    let mut h = AsyncMessagingHelperRust::new();
    assert_eq!(names(&h.restart_lang_server(true, "2699")), vec!["start-worker:2699", "start-server:2699"]);
    assert!(h.server_running && h.worker_running);
    assert_eq!(
        names(&h.restart_lang_server(false, "8081")),
        vec!["stop-server", "abort-worker", "start-worker:8081"]
    );
    assert!(!h.server_running && h.worker_running);
    assert_eq!(names(&h.shutdown()), vec!["abort-worker"]);
    assert!(!h.server_running && !h.worker_running);
    assert!(matches!(h.start_async_worker("1"), HelperCommand::StartWorker(_)));
}

#[test]
fn without_a_change_the_worker_does_nothing() {
    let mut w = DebounceWorker::new();
    for event in [timer("text"), WorkerEvent::Checked(vec![Recommendation::default()]), timer("")] {
        assert!(matches!(w.step(event), WorkerAction::Ignore));
    }
    assert_eq!(w.phase, WorkerPhase::Waiting);
}

#[test]
fn a_check_is_answered_by_one_send_of_its_result() {
    let mut w = DebounceWorker::new();
    w.step(WorkerEvent::Changed);
    assert!(matches!(w.step(timer("txt")), WorkerAction::Check(_)));
    assert!(matches!(w.step(WorkerEvent::Changed), WorkerAction::Ignore));
    assert!(matches!(w.step(timer("other")), WorkerAction::Ignore));
    let result = vec![expected(1, 2, "x"), expected(3, 4, "y")];
    match w.step(WorkerEvent::Checked(result.clone())) {
        WorkerAction::Send(s) => assert_eq!(s.0, result),
        _ => panic!("expected a send"),
    }
    assert!(matches!(w.step(WorkerEvent::Checked(vec![])), WorkerAction::Ignore));
}
