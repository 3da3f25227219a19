//! State machine of the persistent external-interpreter adapter: a child
//! process is spawned, its first two output reads are discarded as a startup
//! banner, and once ready it evaluates one input line per call. Chunks read
//! from the child are filtered: a chunk opening with the interpreter's
//! prompt marker is chrome, and a trailing pair of prompt lines echoed after
//! a result is stripped before the chunk is forwarded.
use vstd::prelude::*;

use crate::text::{
    NL, concat_segs, content_of, lemma_concat_push, line_content, opt_bytes_view, push_all,
    segs_view, slice_starts_with, split_lines, split_segments, starts_with,
};

verus! {

/// The interpreter's readiness prompt opens with this text.
pub open spec fn prompt_marker() -> Seq<u8> {
    seq![('I' as u8), ('n' as u8), (' ' as u8)]
}

/// A line that matches the prompt-marker pattern.
pub open spec fn is_prompt_line(content: Seq<u8>) -> bool {
    starts_with(content, prompt_marker())
}

/// A whole chunk that is prompt chrome: a newline followed by the prompt.
pub open spec fn chunk_chrome_marker() -> Seq<u8> {
    seq![NL, ('I' as u8), ('n' as u8), (' ' as u8)]
}

/// The canonical empty result reported for a side-effecting statement.
pub open spec fn statement_result() -> Seq<u8> {
    seq![('(' as u8), (')' as u8)]
}

/// The directive that asks the child interpreter to exit.
pub open spec fn exit_directive() -> Seq<u8> {
    seq![('e' as u8), ('x' as u8), ('i' as u8), ('t' as u8), NL]
}

/// The prefix marking an input line as a host command, never evaluated.
pub open spec fn command_prefix() -> u8 {
    (':' as u8)
}

/// What a chunk read from a ready child becomes: `None` for discarded
/// chrome; otherwise the chunk, with a trailing pair of prompt-marker lines
/// removed when both of its last two lines match the prompt pattern.
pub open spec fn clean_chunk_spec(s: Seq<u8>) -> Option<Seq<u8>> {
    if starts_with(s, chunk_chrome_marker()) {
        None
    } else {
        let segs = split_lines(s);
        if segs.len() >= 2 && is_prompt_line(line_content(segs[segs.len() - 1]))
            && is_prompt_line(line_content(segs[segs.len() - 2])) {
            Some(concat_segs(segs.take(segs.len() - 2)))
        } else {
            Some(s)
        }
    }
}

/// Whether a line matches the prompt-marker pattern.
fn is_prompt(content: &[u8]) -> (r: bool)
    ensures
        r == is_prompt_line(content@),
{
    let m: Vec<u8> = vec![('I' as u8), ('n' as u8), (' ' as u8)];
    assert(m@ =~= prompt_marker());
    slice_starts_with(content, m.as_slice())
}

/// Filter one chunk read from the ready child: discard prompt chrome,
/// strip a trailing pair of prompt lines, forward anything else unchanged.
pub fn clean_chunk(chunk: &[u8]) -> (r: Option<Vec<u8>>)
    ensures
        opt_bytes_view(r) == clean_chunk_spec(chunk@),
{
    let c: Vec<u8> = vec![NL, ('I' as u8), ('n' as u8), (' ' as u8)];
    assert(c@ =~= chunk_chrome_marker());
    if slice_starts_with(chunk, c.as_slice()) {
        return None;
    }
    let segs = split_segments(chunk);
    let n = segs.len();
    if n >= 2 && is_prompt(content_of(&segs[n - 1])) && is_prompt(content_of(&segs[n - 2])) {
        assert(segs_view(segs@)[n - 1] == segs@[n - 1]@);
        assert(segs_view(segs@)[n - 2] == segs@[n - 2]@);
        let mut out: Vec<u8> = Vec::new();
        let mut i: usize = 0;
        assert(segs_view(segs@).take(0) =~= Seq::<Seq<u8>>::empty());
        while i < n - 2
            invariant
                n == segs@.len(),
                n >= 2,
                i <= n - 2,
                out@ == concat_segs(segs_view(segs@).take(i as int)),
            decreases n - i,
        {
            push_all(&mut out, segs[i].as_slice());
            proof {
                lemma_concat_push(segs_view(segs@).take(i as int), segs@[i as int]@);
                assert(segs_view(segs@).take(i + 1) =~= segs_view(segs@).take(i as int).push(
                    segs@[i as int]@,
                ));
            }
            i += 1;
        }
        Some(out)
    } else {
        let mut copy: Vec<u8> = Vec::new();
        push_all(&mut copy, chunk);
        assert(copy@ =~= chunk@);
        Some(copy)
    }
}

/// Phase of the adapter's child process.
#[derive(PartialEq, Eq, Structural, Clone, Copy, Debug)]
pub enum AdapterPhase {
    /// Child spawned; `discarded` of the two banner reads seen so far.
    Starting { discarded: u8 },
    /// Banner consumed; one evaluation accepted per output-event call.
    Ready,
    /// Exit directive sent; the child may or may not still be alive.
    Stopped,
}

/// What the background reader does with one read from the child.
#[derive(PartialEq, Eq, Structural, Clone, Copy, Debug)]
pub enum ReadDisposition {
    /// Startup banner: dropped regardless of content.
    DiscardBanner,
    /// Second banner read: dropped, and readiness is signalled.
    SignalReady,
    /// Prompt chrome in the ready phase: dropped.
    DiscardChrome,
    /// A result chunk, forwarded after cleaning.
    Forward,
    /// Zero-length read, or a read after stop: the reader terminates.
    Stop,
}

/// The adapter phase after the reader sees one chunk.
pub open spec fn read_step_phase(p: AdapterPhase, chunk: Seq<u8>) -> AdapterPhase {
    match p {
        AdapterPhase::Starting { discarded } => if discarded == 0 {
            AdapterPhase::Starting { discarded: 1 }
        } else {
            AdapterPhase::Ready
        },
        AdapterPhase::Ready => AdapterPhase::Ready,
        AdapterPhase::Stopped => AdapterPhase::Stopped,
    }
}

/// What the reader does with one chunk in phase `p`.
pub open spec fn read_step_disposition(p: AdapterPhase, chunk: Seq<u8>) -> ReadDisposition {
    match p {
        AdapterPhase::Starting { discarded } => if discarded == 0 {
            ReadDisposition::DiscardBanner
        } else {
            ReadDisposition::SignalReady
        },
        AdapterPhase::Ready => if chunk.len() == 0 {
            ReadDisposition::Stop
        } else if clean_chunk_spec(chunk) is None {
            ReadDisposition::DiscardChrome
        } else {
            ReadDisposition::Forward
        },
        AdapterPhase::Stopped => ReadDisposition::Stop,
    }
}

/// The bytes the reader forwards for one chunk, if any.
pub open spec fn read_step_payload(p: AdapterPhase, chunk: Seq<u8>) -> Option<Seq<u8>> {
    if read_step_disposition(p, chunk) == ReadDisposition::Forward {
        clean_chunk_spec(chunk)
    } else {
        None
    }
}

/// A well-formed phase never counts more than one discarded banner read.
pub open spec fn phase_wf(p: AdapterPhase) -> bool {
    match p {
        AdapterPhase::Starting { discarded } => discarded <= 1,
        _ => true,
    }
}

/// The adapter: the verified phase machine of one persistent child process.
pub struct DaemonAdapter {
    /// Current phase of the child.
    pub phase: AdapterPhase,
}

impl DaemonAdapter {
    /// The adapter's invariant.
    pub open spec fn wf(self) -> bool {
        phase_wf(self.phase)
    }

    /// A freshly spawned adapter: no banner read consumed yet.
    pub fn spawn() -> (a: DaemonAdapter)
        ensures
            a.phase == (AdapterPhase::Starting { discarded: 0 }),
            a.wf(),
    {
        DaemonAdapter { phase: AdapterPhase::Starting { discarded: 0 } }
    }

    /// Process one read from the child: returns its disposition and, for a
    /// forwarded read, the cleaned bytes.
    pub fn on_child_read(&mut self, chunk: &[u8]) -> (r: (ReadDisposition, Option<Vec<u8>>))
        requires
            old(self).wf(),
        ensures
            final(self).wf(),
            final(self).phase == read_step_phase(old(self).phase, chunk@),
            r.0 == read_step_disposition(old(self).phase, chunk@),
            opt_bytes_view(r.1) == read_step_payload(old(self).phase, chunk@),
    {
        match self.phase {
            AdapterPhase::Starting { discarded } => {
                if discarded == 0 {
                    self.phase = AdapterPhase::Starting { discarded: 1 };
                    (ReadDisposition::DiscardBanner, None)
                } else {
                    self.phase = AdapterPhase::Ready;
                    (ReadDisposition::SignalReady, None)
                }
            },
            AdapterPhase::Ready => {
                if chunk.len() == 0 {
                    (ReadDisposition::Stop, None)
                } else {
                    match clean_chunk(chunk) {
                        Some(v) => (ReadDisposition::Forward, Some(v)),
                        None => (ReadDisposition::DiscardChrome, None),
                    }
                }
            },
            AdapterPhase::Stopped => (ReadDisposition::Stop, None),
        }
    }

    /// Decide one output event in the ready phase: a line opening with the
    /// command prefix is answered "no override" without touching the child;
    /// any other line is submitted to the child with a newline appended.
    pub fn decide_output_event(&self, input: &[u8]) -> (d: EvalDecision)
        requires
            self.phase == AdapterPhase::Ready,
        ensures
            eval_decision_view(d) == eval_decision_spec(input@),
    {
        if input.len() > 0 && input[0] == 58u8 {
            EvalDecision::NoOverride
        } else {
            let mut line: Vec<u8> = Vec::new();
            push_all(&mut line, input);
            line.push(NL);
            assert(line@ =~= input@ + seq![NL]);
            EvalDecision::Submit(line)
        }
    }

    /// Interpret the outcome of the bounded wait after a submission: a chunk
    /// received in the window is the expression's result; an elapsed window
    /// means a side-effecting statement, reported as the canonical empty
    /// result. Either way the call overrides the host's output.
    pub fn decide_eval_outcome(&self, received: Option<Vec<u8>>) -> (r: Option<Vec<u8>>)
        requires
            self.phase == AdapterPhase::Ready,
        ensures
            opt_bytes_view(r) == Some(eval_outcome_spec(opt_bytes_view(received))),
    {
        match received {
            Some(chunk) => Some(chunk),
            None => {
                let v: Vec<u8> = vec![('(' as u8), (')' as u8)];
                assert(v@ =~= statement_result());
                Some(v)
            },
        }
    }

    /// A host startup signal restarts the child: the adapter returns to the
    /// beginning of the starting phase and the exit directive is handed back
    /// for the old child, whose failure is ignored.
    pub fn on_host_startup(&mut self) -> (d: Vec<u8>)
        ensures
            final(self).phase == (AdapterPhase::Starting { discarded: 0 }),
            final(self).wf(),
            d@ == exit_directive(),
    {
        self.phase = AdapterPhase::Starting { discarded: 0 };
        let d: Vec<u8> = vec![('e' as u8), ('x' as u8), ('i' as u8), ('t' as u8), NL];
        assert(d@ =~= exit_directive());
        d
    }

    /// A host shutdown signal stops the adapter: the exit directive is handed
    /// back to be sent best-effort, since the child may already be gone. The
    /// call is total: it never faults, whatever the current phase.
    pub fn on_host_shutdown(&mut self) -> (d: Vec<u8>)
        ensures
            final(self).phase == AdapterPhase::Stopped,
            final(self).wf(),
            d@ == exit_directive(),
    {
        self.phase = AdapterPhase::Stopped;
        let d: Vec<u8> = vec![('e' as u8), ('x' as u8), ('i' as u8), ('t' as u8), NL];
        assert(d@ =~= exit_directive());
        d
    }
}

/// The adapter plugin's name on the wire.
pub open spec fn adapter_name() -> Seq<u8> {
    seq![
        ('I' as u8),
        ('P' as u8),
        ('y' as u8),
        ('t' as u8),
        ('h' as u8),
        ('o' as u8),
        ('n' as u8),
    ]
}

/// The optional title and welcome banner the adapter answers with.
pub fn adapter_banner() -> (r: Vec<u8>)
    ensures
        r@ == adapter_name(),
{
    let r: Vec<u8> = vec![
        ('I' as u8),
        ('P' as u8),
        ('y' as u8),
        ('t' as u8),
        ('h' as u8),
        ('o' as u8),
        ('n' as u8),
    ];
    assert(r@ =~= adapter_name());
    r
}

/// What the adapter declares at registration: a persistent process named
/// after its interpreter, requiring at least host version 1.30.6, and
/// subscribed to every hook in the catalog.
pub fn adapter_descriptor() -> (d: crate::hooks::ScriptDescriptor)
    ensures
        d.name@ == adapter_name(),
        d.script_type == crate::hooks::ScriptType::Daemon,
        d.version_req == (crate::version::VersionReq {
            min: (crate::version::Version { major: 1, minor: 30, patch: 6 }),
        }),
        d.hooks@ =~= seq![
            crate::hooks::Hook::SetTitle,
            crate::hooks::Hook::SetWelcomeMsg,
            crate::hooks::Hook::OutputEvent,
            crate::hooks::Hook::Startup,
            crate::hooks::Hook::Shutdown,
        ],
{
    let name = adapter_banner();
    let hooks: Vec<crate::hooks::Hook> = vec![
        crate::hooks::Hook::SetTitle,
        crate::hooks::Hook::SetWelcomeMsg,
        crate::hooks::Hook::OutputEvent,
        crate::hooks::Hook::Startup,
        crate::hooks::Hook::Shutdown,
    ];
    crate::hooks::ScriptDescriptor {
        name,
        script_type: crate::hooks::ScriptType::Daemon,
        version_req: crate::version::VersionReq {
            min: crate::version::Version { major: 1, minor: 30, patch: 6 },
        },
        hooks,
    }
}

/// Decision taken on one output event before any child interaction.
pub enum EvalDecision {
    /// The input is a host command: no override, the child is not touched.
    NoOverride,
    /// The input is submitted to the child as these bytes.
    Submit(Vec<u8>),
}

/// View of an evaluation decision: `None` for no override, otherwise the
/// submitted bytes.
pub open spec fn eval_decision_view(d: EvalDecision) -> Option<Seq<u8>> {
    match d {
        EvalDecision::NoOverride => None,
        EvalDecision::Submit(v) => Some(v@),
    }
}

/// What an output event decides to: inputs opening with the command prefix
/// are never submitted; every other input is submitted with a newline.
pub open spec fn eval_decision_spec(input: Seq<u8>) -> Option<Seq<u8>> {
    if input.len() > 0 && input[0] == command_prefix() {
        None
    } else {
        Some(input + seq![NL])
    }
}

/// The response for a submitted line once the bounded wait settles.
pub open spec fn eval_outcome_spec(received: Option<Seq<u8>>) -> Seq<u8> {
    match received {
        Some(chunk) => chunk,
        None => statement_result(),
    }
}

/// While the adapter is starting, no read is ever forwarded: the first two
/// reads after a spawn are discarded whatever bytes they carry.
pub proof fn lemma_banner_reads_discarded(p: AdapterPhase, chunk: Seq<u8>)
    requires
        phase_wf(p),
        p is Starting,
    ensures
        read_step_disposition(p, chunk) != ReadDisposition::Forward,
        read_step_payload(p, chunk) is None,
{
}

/// After a spawn, the first two reads are discarded regardless of content
/// and only then is the adapter ready: banner text can never reach a later
/// output-event response.
pub proof fn lemma_startup_discards_two_reads(a: DaemonAdapter, c1: Seq<u8>, c2: Seq<u8>)
    requires
        a.phase == (AdapterPhase::Starting { discarded: 0 }),
    ensures
        read_step_payload(a.phase, c1) is None,
        ({
            let p1 = read_step_phase(a.phase, c1);
            read_step_payload(p1, c2) is None && read_step_phase(p1, c2) == AdapterPhase::Ready
        }),
{
}

/// A command-prefixed input is never submitted to the child, whatever
/// follows the prefix.
pub proof fn lemma_command_input_never_submitted(input: Seq<u8>)
    requires
        input.len() > 0,
        input[0] == command_prefix(),
    ensures
        eval_decision_spec(input) is None,
{
}

/// Two shutdowns in sequence both meet the shutdown contract: the second
/// starts from the stopped phase, is accepted, and leaves the adapter
/// stopped. Stated over the phase transition, which is total.
pub proof fn lemma_shutdown_twice(p0: AdapterPhase)
    ensures
        shutdown_phase(shutdown_phase(p0)) == AdapterPhase::Stopped,
        phase_wf(shutdown_phase(p0)),
        phase_wf(shutdown_phase(shutdown_phase(p0))),
{
}

/// The phase after a host shutdown, from any phase.
pub open spec fn shutdown_phase(p: AdapterPhase) -> AdapterPhase {
    AdapterPhase::Stopped
}

} // verus!
