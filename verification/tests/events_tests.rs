//! Runtime checks of the command table, the main-loop decision and the
//! panic guard.
use irust_core::IRust;
use irust_core::events::{
    Command, GuardAction, IRustError, IRustEvent, KeyCode, KeyEvent, KeyModifiers, LoopAction,
    TermEvent, dispatch_event, dispatch_key, guard_fault_action, panic_message,
};
use irust_core::version::Version;

const NONE_HELD: KeyModifiers = KeyModifiers { ctrl: false, alt: false, shift: false };
const CTRL: KeyModifiers = KeyModifiers { ctrl: true, alt: false, shift: false };
const ALT: KeyModifiers = KeyModifiers { ctrl: false, alt: true, shift: false };
const SHIFT: KeyModifiers = KeyModifiers { ctrl: false, alt: false, shift: true };
const CTRL_ALT: KeyModifiers = KeyModifiers { ctrl: true, alt: true, shift: false };

fn key(code: KeyCode, modifiers: KeyModifiers) -> KeyEvent {
    KeyEvent { code, modifiers }
}

#[test]
fn characters_insert_with_and_without_shift() {
    assert_eq!(dispatch_key(&key(KeyCode::Char('a'), NONE_HELD)), Command::Character('a'));
    assert_eq!(dispatch_key(&key(KeyCode::Char('A'), SHIFT)), Command::Character('A'));
}

#[test]
fn control_chords_route_to_their_commands() {
    assert_eq!(dispatch_key(&key(KeyCode::Char('e'), CTRL)), Command::CtrlE);
    assert_eq!(dispatch_key(&key(KeyCode::Char('c'), CTRL)), Command::CtrlC);
    assert_eq!(dispatch_key(&key(KeyCode::Char('d'), CTRL)), Command::CtrlD);
    assert_eq!(dispatch_key(&key(KeyCode::Char('z'), CTRL)), Command::CtrlZ);
    assert_eq!(dispatch_key(&key(KeyCode::Char('l'), CTRL)), Command::CtrlL);
    assert_eq!(dispatch_key(&key(KeyCode::Char('r'), CTRL)), Command::CtrlR);
    assert_eq!(dispatch_key(&key(KeyCode::Char('\r'), ALT)), Command::AltEnter);
}

#[test]
fn arrows_depend_on_modifiers() {
    assert_eq!(dispatch_key(&key(KeyCode::Left, NONE_HELD)), Command::Left);
    assert_eq!(dispatch_key(&key(KeyCode::Right, NONE_HELD)), Command::Right);
    assert_eq!(dispatch_key(&key(KeyCode::Left, CTRL)), Command::CtrlLeft);
    assert_eq!(dispatch_key(&key(KeyCode::Right, CTRL)), Command::CtrlRight);
    assert_eq!(dispatch_key(&key(KeyCode::Left, ALT)), Command::Noop);
}

#[test]
fn modifier_blind_keys_route_under_any_modifiers() {
    for m in [NONE_HELD, CTRL, ALT, SHIFT, CTRL_ALT] {
        assert_eq!(dispatch_key(&key(KeyCode::Enter, m)), Command::Enter);
        assert_eq!(dispatch_key(&key(KeyCode::Tab, m)), Command::Tab);
        assert_eq!(dispatch_key(&key(KeyCode::BackTab, m)), Command::BackTab);
        assert_eq!(dispatch_key(&key(KeyCode::Up, m)), Command::Up);
        assert_eq!(dispatch_key(&key(KeyCode::Down, m)), Command::Down);
        assert_eq!(dispatch_key(&key(KeyCode::Backspace, m)), Command::Backspace);
        assert_eq!(dispatch_key(&key(KeyCode::Home, m)), Command::Home);
        assert_eq!(dispatch_key(&key(KeyCode::End, m)), Command::End);
        assert_eq!(dispatch_key(&key(KeyCode::Delete, m)), Command::Delete);
    }
}

#[test]
fn altgr_characters_still_insert() {
    assert_eq!(dispatch_key(&key(KeyCode::Char('['), CTRL_ALT)), Command::Character('['));
}

#[test]
fn unrecognized_combinations_are_noops_not_errors() {
    assert_eq!(dispatch_key(&key(KeyCode::Char('q'), CTRL)), Command::Noop);
    assert_eq!(dispatch_key(&key(KeyCode::Other, NONE_HELD)), Command::Noop);
    let shifted_ctrl = KeyModifiers { ctrl: true, alt: false, shift: true };
    assert_eq!(dispatch_key(&key(KeyCode::Char('e'), shifted_ctrl)), Command::Noop);
}

#[test]
fn terminal_events_route_to_commands() {
    assert_eq!(dispatch_event(&TermEvent::Mouse), Command::Noop);
    assert_eq!(dispatch_event(&TermEvent::Resize(80, 24)), Command::Resize(80, 24));
    let ev = TermEvent::Key(key(KeyCode::Char('x'), NONE_HELD));
    assert_eq!(dispatch_event(&ev), Command::Character('x'));
}

#[test]
fn the_loop_handles_each_event_kind() {
    let h = IRust::new(Version { major: 1, minor: 31, patch: 0 });
    let a = h.handle_event(IRustEvent::Input(TermEvent::Key(key(KeyCode::Enter, NONE_HELD))));
    match a {
        LoopAction::HandleInput(c) => assert_eq!(c, Command::Enter),
        _ => panic!("an input event must be handled and acknowledged"),
    }
    assert!(matches!(h.handle_event(IRustEvent::Notify), LoopAction::Resync));
    let fault = IRustError { message: b"channel gone".to_vec() };
    match h.handle_event(IRustEvent::Exit(fault)) {
        LoopAction::Terminate(e) => assert_eq!(e.message, b"channel gone".to_vec()),
        _ => panic!("an exit event must end the loop"),
    }
}

#[test]
fn panic_message_names_the_failing_thread() {
    let msg = panic_message(b"Input");
    let mut expected: Vec<u8> = vec![13];
    expected.extend_from_slice(b"Thread Input paniced, to log the error you can redirect stderror to a file, exp: irust 2>log");
    assert_eq!(msg, expected);
}

#[test]
fn guard_acts_only_on_unwinding_threads() {
    assert_eq!(guard_fault_action(false, true), GuardAction::Nothing);
    assert_eq!(guard_fault_action(false, false), GuardAction::Nothing);
    assert_eq!(guard_fault_action(true, true), GuardAction::SentExit);
    assert_eq!(guard_fault_action(true, false), GuardAction::RestoreAndAbort);
}
