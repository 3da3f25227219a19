//! Runtime checks of the daemon-adapter state machine and chunk filter.
use irust_core::adapter::{
    AdapterPhase, DaemonAdapter, EvalDecision, ReadDisposition, adapter_descriptor, clean_chunk,
};
use irust_core::hooks::{Hook, ScriptType};

fn ready_adapter() -> DaemonAdapter {
    let mut a = DaemonAdapter::spawn();
    let _ = a.on_child_read(b"Python 3.10 banner text");
    let _ = a.on_child_read(b"Type help for more information");
    assert_eq!(a.phase, AdapterPhase::Ready);
    a
}

#[test]
fn first_two_reads_discarded_regardless_of_content() {
    let mut a = DaemonAdapter::spawn();
    let (d1, p1) = a.on_child_read(b"looks like a result: 42\n");
    assert_eq!(d1, ReadDisposition::DiscardBanner);
    assert!(p1.is_none());
    let (d2, p2) = a.on_child_read(b"also looks like a result: 43\n");
    assert_eq!(d2, ReadDisposition::SignalReady);
    assert!(p2.is_none());
    assert_eq!(a.phase, AdapterPhase::Ready);
}

#[test]
fn first_read_after_readiness_is_forwarded_not_banner() {
    let mut a = ready_adapter();
    let (d, p) = a.on_child_read(b"4\n");
    assert_eq!(d, ReadDisposition::Forward);
    assert_eq!(p.unwrap(), b"4\n".to_vec());
}

#[test]
fn command_input_returns_no_override_without_touching_child() {
    let a = ready_adapter();
    match a.decide_output_event(b":help") {
        EvalDecision::NoOverride => {},
        EvalDecision::Submit(_) => panic!("a command input must not reach the child"),
    }
}

#[test]
fn ordinary_input_is_submitted_with_newline() {
    let a = ready_adapter();
    match a.decide_output_event(b"1 + 1") {
        EvalDecision::Submit(line) => assert_eq!(line, b"1 + 1\n".to_vec()),
        EvalDecision::NoOverride => panic!("ordinary input must be submitted"),
    }
}

#[test]
fn trailing_prompt_pair_is_stripped_exactly() {
    let cleaned = clean_chunk(b"42\nIn [2]: \nIn [3]: ").unwrap();
    assert_eq!(cleaned, b"42\n".to_vec());
}

#[test]
fn single_trailing_prompt_line_is_not_stripped() {
    let input: &[u8] = b"42\nIn [2]: ";
    assert_eq!(clean_chunk(input).unwrap(), input.to_vec());
}

#[test]
fn prompt_chrome_chunk_is_discarded() {
    assert!(clean_chunk(b"\nIn [4]: ").is_none());
}

#[test]
fn zero_length_read_stops_the_reader() {
    let mut a = ready_adapter();
    let (d, p) = a.on_child_read(b"");
    assert_eq!(d, ReadDisposition::Stop);
    assert!(p.is_none());
}

#[test]
fn chunk_arrival_is_the_expression_result() {
    let a = ready_adapter();
    let r = a.decide_eval_outcome(Some(b"4\n".to_vec()));
    assert_eq!(r.unwrap(), b"4\n".to_vec());
}

#[test]
fn elapsed_window_reports_the_statement_marker() {
    let a = ready_adapter();
    let r = a.decide_eval_outcome(None);
    assert_eq!(r.unwrap(), b"()".to_vec());
}

#[test]
fn shutdown_twice_never_faults() {
    let mut a = ready_adapter();
    let d1 = a.on_host_shutdown();
    assert_eq!(d1, b"exit\n".to_vec());
    assert_eq!(a.phase, AdapterPhase::Stopped);
    let d2 = a.on_host_shutdown();
    assert_eq!(d2, b"exit\n".to_vec());
    assert_eq!(a.phase, AdapterPhase::Stopped);
}

#[test]
fn startup_restarts_the_child_and_replays_the_banner_discards() {
    let mut a = ready_adapter();
    let d = a.on_host_startup();
    assert_eq!(d, b"exit\n".to_vec());
    assert_eq!(a.phase, AdapterPhase::Starting { discarded: 0 });
    let (d1, p1) = a.on_child_read(b"fresh banner");
    assert_eq!(d1, ReadDisposition::DiscardBanner);
    assert!(p1.is_none());
    let (d2, _) = a.on_child_read(b"fresh banner line two");
    assert_eq!(d2, ReadDisposition::SignalReady);
    assert_eq!(a.phase, AdapterPhase::Ready);
}

#[test]
fn descriptor_declares_a_daemon_subscribed_to_the_catalog() {
    let d = adapter_descriptor();
    assert_eq!(d.name, b"IPython".to_vec());
    assert_eq!(d.script_type, ScriptType::Daemon);
    assert_eq!(d.version_req.min.major, 1);
    assert_eq!(d.version_req.min.minor, 30);
    assert_eq!(d.version_req.min.patch, 6);
    assert_eq!(
        d.hooks,
        vec![Hook::SetTitle, Hook::SetWelcomeMsg, Hook::OutputEvent, Hook::Startup, Hook::Shutdown]
    );
}
