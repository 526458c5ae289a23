use codexec::event::{exit_event, line_event};
use codexec::job::{ascii_lower, new_token, TOKEN_LEN};
use codexec::outcome::{admit_request, join_lines_exec, outcome_of, Collector};
use codexec::{Job, Msg, Outcome, Relay, RelayAction, Setup, Stage};

fn line(s: &str) -> Msg {
    Msg::Stdout(s.to_string())
}

fn success_text(o: Outcome) -> String {
    match o {
        Outcome::Success(s) => s,
        _ => panic!("expected a success"),
    }
}

#[test]
fn relay_forwards_lines_then_cleans_up_once() {
    let mut r = Relay::new();
    assert_eq!(r.step(&line("a")), RelayAction::Forward);
    assert_eq!(r.step(&line("b")), RelayAction::Forward);
    assert!(!r.is_finished());
    assert_eq!(r.step(&Msg::EOF), RelayAction::CleanupThenForward);
    assert!(r.is_finished());
    assert_eq!(r.step(&Msg::Timeout), RelayAction::Discard);
    assert_eq!(r.step(&line("late")), RelayAction::Discard);
}

#[test]
fn relay_treats_every_terminal_variant_alike() {
    for m in [Msg::EOF, Msg::Error("x".to_string()), Msg::Timeout] {
        let mut r = Relay::new();
        assert_eq!(r.step(&m), RelayAction::CleanupThenForward);
        assert_eq!(r.step(&Msg::EOF), RelayAction::Discard);
    }
}

#[test]
fn relay_counts_one_cleanup_and_one_terminal() {
    let ins = vec![line("1"), line("2"), Msg::Error("bad".to_string()), Msg::EOF, Msg::Timeout];
    let mut r = Relay::new();
    let mut cleanups = 0;
    let mut terminals_out = 0;
    let mut forwarded = 0;
    for m in &ins {
        match r.step(m) {
            RelayAction::Forward => forwarded += 1,
            RelayAction::CleanupThenForward => {
                cleanups += 1;
                forwarded += 1;
                if m.is_terminal() {
                    terminals_out += 1;
                }
            }
            RelayAction::Discard => {}
        }
    }
    assert_eq!(cleanups, 1);
    assert_eq!(terminals_out, 1);
    assert_eq!(forwarded, 3);
}

#[test]
fn clean_run_joins_all_lines() {
    let msgs = vec![line("one"), line("two"), line("three"), Msg::EOF, Msg::Timeout];
    assert_eq!(success_text(outcome_of(msgs, 5)), "one\ntwo\nthree");
}

#[test]
fn clean_run_with_no_output_is_empty_success() {
    assert_eq!(success_text(outcome_of(vec![Msg::EOF], 5)), "");
}

#[test]
fn stream_without_terminal_counts_as_success() {
    assert_eq!(success_text(outcome_of(vec![line("x"), line("y")], 5)), "x\ny");
}

#[test]
fn overrun_gives_timeout_with_limit() {
    let msgs = vec![line("partial"), Msg::Timeout, Msg::EOF];
    match outcome_of(msgs, 5) {
        Outcome::TimedOut(t) => assert_eq!(t, 5),
        _ => panic!("expected a timeout"),
    }
}

#[test]
fn failure_gives_server_error_with_reason() {
    let msgs = vec![line("a"), Msg::Error("invalid line".to_string()), Msg::EOF];
    match outcome_of(msgs, 5) {
        Outcome::ServerError(e) => assert_eq!(e, "invalid line"),
        _ => panic!("expected a server error"),
    }
}

#[test]
fn collector_keeps_lines_until_terminal() {
    let mut c = Collector::new(7);
    assert!(c.accept(line("a")).is_none());
    assert!(c.accept(line("b")).is_none());
    assert_eq!(c.lines, vec!["a".to_string(), "b".to_string()]);
    assert_eq!(success_text(c.accept(Msg::EOF).unwrap()), "a\nb");
    assert_eq!(success_text(c.finish()), "a\nb");
}

#[test]
fn join_lines_exact() {
    assert_eq!(join_lines_exec(&vec![]), "");
    assert_eq!(join_lines_exec(&vec!["solo".to_string()]), "solo");
    assert_eq!(join_lines_exec(&vec!["".to_string(), "".to_string()]), "\n");
    assert_eq!(join_lines_exec(&vec!["a".to_string(), "bc".to_string(), "d".to_string()]), "a\nbc\nd");
}

#[test]
fn invalid_text_is_bad_request() {
    match admit_request(vec![0x70, 0xff, 0xfe]) {
        Err(Outcome::BadRequest) => {}
        _ => panic!("expected a bad request"),
    }
    match admit_request(vec![0xc3]) {
        Err(Outcome::BadRequest) => {}
        _ => panic!("expected a bad request"),
    }
}

#[test]
fn valid_text_is_admitted() {
    match admit_request("print('hé')".as_bytes().to_vec()) {
        Ok(code) => assert_eq!(code, "print('hé')"),
        Err(_) => panic!("expected the code"),
    }
    match admit_request(vec![]) {
        Ok(code) => assert_eq!(code, ""),
        Err(_) => panic!("expected empty code"),
    }
}

#[test]
fn job_names_derive_from_token() {
    let j = Job::for_token("abc123".to_string());
    assert_eq!(j.container_name, "codex_abc123");
    assert_eq!(j.workspace, "/tmp/codex_abc123/");
    assert_eq!(j.descriptor_path(), "/tmp/codex_abc123/Dockerfile");
    assert_eq!(j.script_path(), "/tmp/codex_abc123/script.py");
}

#[test]
fn engine_arguments() {
    let j = Job::for_token("t0".to_string());
    assert_eq!(j.build_args(), vec!["build", "-t", "codex_t0", "/tmp/codex_t0/"]);
    assert_eq!(j.run_args(), vec!["run", "-it", "--rm", "codex_t0"]);
    assert_eq!(j.remove_instance_args(), vec!["rm", "-f", "codex_t0"]);
    assert_eq!(j.remove_image_args(), vec!["rmi", "-f", "codex_t0"]);
}

#[test]
fn fresh_tokens_are_lowercase_alphanumeric() {
    for _ in 0..50 {
        let t = new_token();
        assert_eq!(t.len(), TOKEN_LEN);
        assert!(t.chars().all(|c| c.is_ascii_lowercase() || c.is_ascii_digit()));
    }
}

#[test]
fn concurrent_jobs_get_distinct_names() {
    let a = Job::fresh();
    let b = Job::fresh();
    assert_ne!(a.container_name, b.container_name);
    assert_ne!(a.workspace, b.workspace);
    assert!(!a.workspace.starts_with(&b.workspace));
}

#[test]
fn ascii_lower_exact() {
    assert_eq!(ascii_lower(b'A'), b'a');
    assert_eq!(ascii_lower(b'Z'), b'z');
    assert_eq!(ascii_lower(b'q'), b'q');
    assert_eq!(ascii_lower(b'7'), b'7');
    assert_eq!(ascii_lower(b'@'), b'@');
    assert_eq!(ascii_lower(b'['), b'[');
}

#[test]
fn setup_runs_all_steps_on_success() {
    let mut s = Setup::new();
    assert_eq!(s.stage, Stage::CreateWorkspace);
    assert_eq!(s.advance(true), Stage::WriteDescriptor);
    assert_eq!(s.advance(true), Stage::WriteScript);
    assert_eq!(s.advance(true), Stage::Build);
    assert_eq!(s.advance(true), Stage::Run);
    assert_eq!(s.advance(true), Stage::Streaming);
    assert_eq!(s.advance(false), Stage::Streaming);
}

#[test]
fn failed_workspace_never_reaches_engine() {
    let mut s = Setup::new();
    assert_eq!(s.advance(false), Stage::Aborted);
    assert_eq!(s.advance(true), Stage::Aborted);
    assert_eq!(s.advance(true), Stage::Aborted);
}

#[test]
fn failed_write_aborts() {
    let mut s = Setup::new();
    s.advance(true);
    assert_eq!(s.advance(false), Stage::Aborted);
}

#[test]
fn reader_events() {
    match line_event(Ok("hi".to_string())) {
        Msg::Stdout(l) => assert_eq!(l, "hi"),
        _ => panic!("expected a line"),
    }
    match line_event(Err("bad bytes".to_string())) {
        Msg::Error(e) => assert_eq!(e, "bad bytes"),
        _ => panic!("expected a failure"),
    }
    assert!(matches!(exit_event(Ok(())), Msg::EOF));
    match exit_event(Err("no child".to_string())) {
        Msg::Error(e) => assert_eq!(e, "no child"),
        _ => panic!("expected a failure"),
    }
}
