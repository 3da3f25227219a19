//! The host's event model: the three event producers merged onto one bus,
//! the fixed command table that routes one key event to one command, the
//! per-thread panic guard's decision rule, and the park/unpark handshake
//! that keeps at most one input event in flight.
use vstd::prelude::*;


verus! {

/// Key codes the command table distinguishes.
#[derive(PartialEq, Eq, Structural, Clone, Copy, Debug)]
pub enum KeyCode {
    /// A printable character.
    Char(char),
    /// The enter key.
    Enter,
    /// The tab key.
    Tab,
    /// Shift-tab.
    BackTab,
    /// The left arrow.
    Left,
    /// The right arrow.
    Right,
    /// The up arrow.
    Up,
    /// The down arrow.
    Down,
    /// The backspace key.
    Backspace,
    /// The home key.
    Home,
    /// The end key.
    End,
    /// The delete key.
    Delete,
    /// Any key the table does not route.
    Other,
}

/// Modifier keys held with a key event.
#[derive(PartialEq, Eq, Structural, Clone, Copy, Debug)]
pub struct KeyModifiers {
    /// Control held.
    pub ctrl: bool,
    /// Alt held.
    pub alt: bool,
    /// Shift held.
    pub shift: bool,
}

/// One key event: a code with its modifiers.
#[derive(PartialEq, Eq, Structural, Clone, Copy, Debug)]
pub struct KeyEvent {
    /// The key pressed.
    pub code: KeyCode,
    /// The modifiers held.
    pub modifiers: KeyModifiers,
}

/// One terminal event.
#[derive(PartialEq, Eq, Structural, Clone, Copy, Debug)]
pub enum TermEvent {
    /// A key press.
    Key(KeyEvent),
    /// A mouse event; the host ignores these.
    Mouse,
    /// The terminal was resized to the given width and height.
    Resize(u16, u16),
}

/// A fault carried by an exit event.
#[derive(Debug)]
pub struct IRustError {
    /// The fault's message.
    pub message: Vec<u8>,
}

/// One event on the bus, produced by exactly one of the three sources.
#[derive(Debug)]
pub enum IRustEvent {
    /// From the keyboard reader; at most one in flight.
    Input(TermEvent),
    /// From the file watcher; payload-free, it only asks to resynchronize.
    Notify,
    /// From a panic guard or a failing producer; ends the session.
    Exit(IRustError),
}

/// The commands of the fixed dispatch table.
#[derive(PartialEq, Eq, Structural, Clone, Copy, Debug)]
pub enum Command {
    /// Insert one character.
    Character(char),
    /// Control-e: evaluate without reprinting.
    CtrlE,
    /// Evaluate or break the line.
    Enter,
    /// Completion forward.
    Tab,
    /// Completion backward.
    BackTab,
    /// Cursor left.
    Left,
    /// Cursor right.
    Right,
    /// History back.
    Up,
    /// History forward.
    Down,
    /// Delete before the cursor.
    Backspace,
    /// Control-c: clear the current line.
    CtrlC,
    /// Control-d: may end the session.
    CtrlD,
    /// Control-z: suspend.
    CtrlZ,
    /// Control-l: clear the screen.
    CtrlL,
    /// Control-r: search history.
    CtrlR,
    /// Alt-enter: force a newline.
    AltEnter,
    /// Cursor to line start.
    Home,
    /// Cursor to line end.
    End,
    /// Cursor one word left.
    CtrlLeft,
    /// Cursor one word right.
    CtrlRight,
    /// Delete under the cursor.
    Delete,
    /// Redraw for the new dimensions.
    Resize(u16, u16),
    /// An unrecognized combination: a no-op, not an error.
    Noop,
}

/// No modifier held.
pub open spec fn no_modifier(m: KeyModifiers) -> bool {
    !m.ctrl && !m.alt && !m.shift
}

/// Exactly shift held.
pub open spec fn shift_only(m: KeyModifiers) -> bool {
    !m.ctrl && !m.alt && m.shift
}

/// Exactly control held.
pub open spec fn ctrl_only(m: KeyModifiers) -> bool {
    m.ctrl && !m.alt && !m.shift
}

/// Exactly alt held.
pub open spec fn alt_only(m: KeyModifiers) -> bool {
    !m.ctrl && m.alt && !m.shift
}

/// The fixed command table: which command one key event is routed to. The
/// cases are ordered as the table reads them; a combination none of them
/// claims is a no-op. A character with control and alt together is still a
/// character, as some keyboard layouts deliver ordinary characters that way.
pub open spec fn key_command_spec(k: KeyEvent) -> Command {
    let m = k.modifiers;
    if k.code is Char && (no_modifier(m) || shift_only(m)) {
        Command::Character(k.code->Char_0)
    } else if k.code == KeyCode::Char('e') && ctrl_only(m) {
        Command::CtrlE
    } else if k.code is Enter {
        Command::Enter
    } else if k.code is Tab {
        Command::Tab
    } else if k.code is BackTab {
        Command::BackTab
    } else if k.code is Left && no_modifier(m) {
        Command::Left
    } else if k.code is Right && no_modifier(m) {
        Command::Right
    } else if k.code is Up {
        Command::Up
    } else if k.code is Down {
        Command::Down
    } else if k.code is Backspace {
        Command::Backspace
    } else if k.code == KeyCode::Char('c') && ctrl_only(m) {
        Command::CtrlC
    } else if k.code == KeyCode::Char('d') && ctrl_only(m) {
        Command::CtrlD
    } else if k.code == KeyCode::Char('z') && ctrl_only(m) {
        Command::CtrlZ
    } else if k.code == KeyCode::Char('l') && ctrl_only(m) {
        Command::CtrlL
    } else if k.code == KeyCode::Char('r') && ctrl_only(m) {
        Command::CtrlR
    } else if k.code == KeyCode::Char('\r') && alt_only(m) {
        Command::AltEnter
    } else if k.code is Home {
        Command::Home
    } else if k.code is End {
        Command::End
    } else if k.code is Left && ctrl_only(m) {
        Command::CtrlLeft
    } else if k.code is Right && ctrl_only(m) {
        Command::CtrlRight
    } else if k.code is Delete {
        Command::Delete
    } else if k.code is Char && m.ctrl && m.alt {
        Command::Character(k.code->Char_0)
    } else {
        Command::Noop
    }
}

/// What one terminal event is routed to.
pub open spec fn dispatch_event_spec(ev: TermEvent) -> Command {
    match ev {
        TermEvent::Key(k) => key_command_spec(k),
        TermEvent::Mouse => Command::Noop,
        TermEvent::Resize(w, h) => Command::Resize(w, h),
    }
}

/// Route one key event through the fixed command table.
pub fn dispatch_key(k: &KeyEvent) -> (c: Command)
    ensures
        c == key_command_spec(*k),
{
    let m = k.modifiers;
    let nomod = !m.ctrl && !m.alt && !m.shift;
    let shift = !m.ctrl && !m.alt && m.shift;
    let ctrl = m.ctrl && !m.alt && !m.shift;
    let alt = !m.ctrl && m.alt && !m.shift;
    match k.code {
        KeyCode::Char(c) => {
            if nomod || shift {
                Command::Character(c)
            } else if c == 'e' && ctrl {
                Command::CtrlE
            } else if c == 'c' && ctrl {
                Command::CtrlC
            } else if c == 'd' && ctrl {
                Command::CtrlD
            } else if c == 'z' && ctrl {
                Command::CtrlZ
            } else if c == 'l' && ctrl {
                Command::CtrlL
            } else if c == 'r' && ctrl {
                Command::CtrlR
            } else if c == '\r' && alt {
                Command::AltEnter
            } else if m.ctrl && m.alt {
                Command::Character(c)
            } else {
                Command::Noop
            }
        },
        KeyCode::Enter => Command::Enter,
        KeyCode::Tab => Command::Tab,
        KeyCode::BackTab => Command::BackTab,
        KeyCode::Left => {
            if nomod {
                Command::Left
            } else if ctrl {
                Command::CtrlLeft
            } else {
                Command::Noop
            }
        },
        KeyCode::Right => {
            if nomod {
                Command::Right
            } else if ctrl {
                Command::CtrlRight
            } else {
                Command::Noop
            }
        },
        KeyCode::Up => Command::Up,
        KeyCode::Down => Command::Down,
        KeyCode::Backspace => Command::Backspace,
        KeyCode::Home => Command::Home,
        KeyCode::End => Command::End,
        KeyCode::Delete => Command::Delete,
        KeyCode::Other => Command::Noop,
    }
}

/// Route one terminal event.
pub fn dispatch_event(ev: &TermEvent) -> (c: Command)
    ensures
        c == dispatch_event_spec(*ev),
{
    match ev {
        TermEvent::Key(k) => dispatch_key(k),
        TermEvent::Mouse => Command::Noop,
        TermEvent::Resize(w, h) => Command::Resize(*w, *h),
    }
}

/// What the main loop does with one received event.
pub enum LoopAction {
    /// Run the command, then wake the keyboard reader.
    HandleInput(Command),
    /// Resynchronize session state with the watched file.
    Resync,
    /// End the loop, propagating the fault to the caller.
    Terminate(IRustError),
}

/// The main loop's decision for one event.
pub open spec fn handle_event_spec(ev: IRustEvent) -> LoopAction {
    match ev {
        IRustEvent::Input(t) => LoopAction::HandleInput(dispatch_event_spec(t)),
        IRustEvent::Notify => LoopAction::Resync,
        IRustEvent::Exit(e) => LoopAction::Terminate(e),
    }
}

/// Whether an action ends with waking the keyboard reader: exactly the
/// input events do, completing the park/unpark handshake.
pub open spec fn wakes_reader(a: LoopAction) -> bool {
    a is HandleInput
}

/// Opening of a panic guard's fault message.
pub open spec fn panic_note_prefix() -> Seq<u8> {
    seq![
        13u8,
        ('T' as u8),
        ('h' as u8),
        ('r' as u8),
        ('e' as u8),
        ('a' as u8),
        ('d' as u8),
        (' ' as u8),
    ]
}

/// Close of a panic guard's fault message.
pub open spec fn panic_note_suffix() -> Seq<u8> {
    seq![
        (' ' as u8),
        ('p' as u8),
        ('a' as u8),
        ('n' as u8),
        ('i' as u8),
        ('c' as u8),
        ('e' as u8),
        ('d' as u8),
        (',' as u8),
        (' ' as u8),
        ('t' as u8),
        ('o' as u8),
        (' ' as u8),
        ('l' as u8),
        ('o' as u8),
        ('g' as u8),
        (' ' as u8),
        ('t' as u8),
        ('h' as u8),
        ('e' as u8),
        (' ' as u8),
        ('e' as u8),
        ('r' as u8),
        ('r' as u8),
        ('o' as u8),
        ('r' as u8),
        (' ' as u8),
        ('y' as u8),
        ('o' as u8),
        ('u' as u8),
        (' ' as u8),
        ('c' as u8),
        ('a' as u8),
        ('n' as u8),
        (' ' as u8),
        ('r' as u8),
        ('e' as u8),
        ('d' as u8),
        ('i' as u8),
        ('r' as u8),
        ('e' as u8),
        ('c' as u8),
        ('t' as u8),
        (' ' as u8),
        ('s' as u8),
        ('t' as u8),
        ('d' as u8),
        ('e' as u8),
        ('r' as u8),
        ('r' as u8),
        ('o' as u8),
        ('r' as u8),
        (' ' as u8),
        ('t' as u8),
        ('o' as u8),
        (' ' as u8),
        ('a' as u8),
        (' ' as u8),
        ('f' as u8),
        ('i' as u8),
        ('l' as u8),
        ('e' as u8),
        (',' as u8),
        (' ' as u8),
        ('e' as u8),
        ('x' as u8),
        ('p' as u8),
        (':' as u8),
        (' ' as u8),
        ('i' as u8),
        ('r' as u8),
        ('u' as u8),
        ('s' as u8),
        ('t' as u8),
        (' ' as u8),
        ('2' as u8),
        ('>' as u8),
        ('l' as u8),
        ('o' as u8),
        ('g' as u8),
    ]
}

/// The fault message a panic guard sends for a failing thread.
pub fn panic_message(thread_name: &[u8]) -> (r: Vec<u8>)
    ensures
        r@ == panic_note_prefix() + thread_name@ + panic_note_suffix(),
{
    let mut out: Vec<u8> = Vec::new();
    let pre: Vec<u8> = vec![
        13u8,
        ('T' as u8),
        ('h' as u8),
        ('r' as u8),
        ('e' as u8),
        ('a' as u8),
        ('d' as u8),
        (' ' as u8),
    ];
    let post: Vec<u8> = vec![
        (' ' as u8),
        ('p' as u8),
        ('a' as u8),
        ('n' as u8),
        ('i' as u8),
        ('c' as u8),
        ('e' as u8),
        ('d' as u8),
        (',' as u8),
        (' ' as u8),
        ('t' as u8),
        ('o' as u8),
        (' ' as u8),
        ('l' as u8),
        ('o' as u8),
        ('g' as u8),
        (' ' as u8),
        ('t' as u8),
        ('h' as u8),
        ('e' as u8),
        (' ' as u8),
        ('e' as u8),
        ('r' as u8),
        ('r' as u8),
        ('o' as u8),
        ('r' as u8),
        (' ' as u8),
        ('y' as u8),
        ('o' as u8),
        ('u' as u8),
        (' ' as u8),
        ('c' as u8),
        ('a' as u8),
        ('n' as u8),
        (' ' as u8),
        ('r' as u8),
        ('e' as u8),
        ('d' as u8),
        ('i' as u8),
        ('r' as u8),
        ('e' as u8),
        ('c' as u8),
        ('t' as u8),
        (' ' as u8),
        ('s' as u8),
        ('t' as u8),
        ('d' as u8),
        ('e' as u8),
        ('r' as u8),
        ('r' as u8),
        ('o' as u8),
        ('r' as u8),
        (' ' as u8),
        ('t' as u8),
        ('o' as u8),
        (' ' as u8),
        ('a' as u8),
        (' ' as u8),
        ('f' as u8),
        ('i' as u8),
        ('l' as u8),
        ('e' as u8),
        (',' as u8),
        (' ' as u8),
        ('e' as u8),
        ('x' as u8),
        ('p' as u8),
        (':' as u8),
        (' ' as u8),
        ('i' as u8),
        ('r' as u8),
        ('u' as u8),
        ('s' as u8),
        ('t' as u8),
        (' ' as u8),
        ('2' as u8),
        ('>' as u8),
        ('l' as u8),
        ('o' as u8),
        ('g' as u8),
    ];
    assert(pre@ =~= panic_note_prefix());
    assert(post@ =~= panic_note_suffix());
    crate::text::push_all(&mut out, pre.as_slice());
    crate::text::push_all(&mut out, thread_name);
    crate::text::push_all(&mut out, post.as_slice());
    out
}

/// What a panic guard does when its thread unwinds: it tries to send the
/// fault onto the bus; only when the bus is closed does it restore the
/// terminal and end the process, so the terminal is never left unusable.
#[derive(PartialEq, Eq, Structural, Clone, Copy, Debug)]
pub enum GuardAction {
    /// The thread is ending normally: nothing to do.
    Nothing,
    /// The fault was sent onto the bus; the main loop will surface it.
    SentExit,
    /// The bus is gone: restore the terminal and end with a diagnostic.
    RestoreAndAbort,
}

/// The guard's decision rule.
pub open spec fn guard_action_spec(panicking: bool, send_ok: bool) -> GuardAction {
    if !panicking {
        GuardAction::Nothing
    } else if send_ok {
        GuardAction::SentExit
    } else {
        GuardAction::RestoreAndAbort
    }
}

/// Decide what a panic guard does, given whether its thread is unwinding
/// and whether the fault could be sent onto the bus.
pub fn guard_fault_action(panicking: bool, send_ok: bool) -> (a: GuardAction)
    ensures
        a == guard_action_spec(panicking, send_ok),
{
    if !panicking {
        GuardAction::Nothing
    } else if send_ok {
        GuardAction::SentExit
    } else {
        GuardAction::RestoreAndAbort
    }
}

/// Phase of the keyboard reader thread.
#[derive(PartialEq, Eq, Structural, Clone, Copy, Debug)]
pub enum ReaderPhase {
    /// Blocked on the terminal, free to send the next input event.
    Running,
    /// Parked after sending, until the consumer acknowledges.
    Parked,
}

/// Abstract state of the input side of the bus: the reader's phase and how
/// many input events are sent but not yet fully handled.
pub struct BusState {
    /// The keyboard reader's phase.
    pub reader: ReaderPhase,
    /// Input events in flight: queued or being handled.
    pub inflight: nat,
}

/// One transition of the input handshake.
#[derive(PartialEq, Eq, Structural, Clone, Copy, Debug)]
pub enum BusStep {
    /// The reader sends one input event and parks itself.
    SendInput,
    /// The consumer finishes handling one input event and wakes the reader.
    Acknowledge,
}

/// The initial state: reader running, nothing in flight.
pub open spec fn bus_init(s: BusState) -> bool {
    s.reader == ReaderPhase::Running && s.inflight == 0
}

/// The transition relation of the handshake.
pub open spec fn bus_step(pre: BusState, step: BusStep, post: BusState) -> bool {
    match step {
        BusStep::SendInput => pre.reader == ReaderPhase::Running && post == (BusState {
            reader: ReaderPhase::Parked,
            inflight: pre.inflight + 1,
        }),
        BusStep::Acknowledge => pre.inflight > 0 && post == (BusState {
            reader: ReaderPhase::Running,
            inflight: (pre.inflight - 1) as nat,
        }),
    }
}

/// The handshake's invariant: at most one input event is unacknowledged,
/// and a running reader means nothing is in flight.
pub open spec fn bus_inv(s: BusState) -> bool {
    s.inflight <= 1 && (s.reader == ReaderPhase::Running ==> s.inflight == 0)
}

/// `states` is a run of the handshake: each state follows from the
/// previous by the step between them.
pub open spec fn bus_trace(states: Seq<BusState>, steps: Seq<BusStep>) -> bool {
    states.len() == steps.len() + 1 && (forall|k: int|
        0 <= k < steps.len() ==> bus_step(states[k], steps[k], #[trigger] states[k + 1]))
}

/// Each step preserves the invariant.
proof fn lemma_bus_step_inv(pre: BusState, step: BusStep, post: BusState)
    requires
        bus_inv(pre),
        bus_step(pre, step, post),
    ensures
        bus_inv(post),
{
}

/// The invariant holds at every state of a run that starts in it.
proof fn lemma_bus_inv_trace(states: Seq<BusState>, steps: Seq<BusStep>, k: int)
    requires
        bus_inv(states[0]),
        bus_trace(states, steps),
        0 <= k < states.len(),
    ensures
        bus_inv(states[k]),
    decreases k,
{
    if k > 0 {
        lemma_bus_inv_trace(states, steps, k - 1);
        let kk = k - 1;
        assert(bus_step(states[kk], steps[kk], states[kk + 1]));
        lemma_bus_step_inv(states[kk], steps[kk], states[kk + 1]);
    }
}

/// Backpressure on input: from the initial state, under any sequence of
/// sends and acknowledgements - however fast the typing - at most one input
/// event is ever unacknowledged, and the reader is parked whenever one is.
pub proof fn lemma_input_backpressure(states: Seq<BusState>, steps: Seq<BusStep>, k: int)
    requires
        states.len() > 0,
        bus_init(states[0]),
        bus_trace(states, steps),
        0 <= k < states.len(),
    ensures
        states[k].inflight <= 1,
        states[k].inflight == 1 ==> states[k].reader == ReaderPhase::Parked,
{
    lemma_bus_inv_trace(states, steps, k);
}

} // verus!
