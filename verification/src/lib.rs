//! Core logic of an interactive read-eval-print host: the event model that
//! merges keyboard, file-watch and fault producers into one consumer stream,
//! the plugin hook protocol with version negotiation, the build-output
//! classifier, and the state machine of a persistent external-interpreter
//! adapter.
use vstd::prelude::*;

pub mod adapter;
pub mod events;
pub mod format;
pub mod hooks;
pub mod text;
pub mod version;

verus! {

/// The host core: the state the verified logic owns. The collaborators the
/// host drives - terminal, edit buffer, history, the build-and-run tool -
/// stay outside and hand it plain values.
pub struct IRust {
    /// The plugin router, carrying the host version and every registered
    /// script with its negotiated standing.
    pub router: hooks::HookRouter,
}

impl IRust {
    /// A host of the given version with no scripts registered.
    pub fn new(host_version: version::Version) -> (r: IRust)
        ensures
            r.router.host_version == host_version,
            r.router.scripts@.len() == 0,
            r.router.wf(),
    {
        IRust { router: hooks::HookRouter::new(host_version) }
    }

    /// Decide one received bus event: an input event is routed through the
    /// fixed command table and ends by waking the keyboard reader, a notify
    /// event asks for a resynchronization, and an exit event ends the loop
    /// with its fault.
    pub fn handle_event(&self, ev: events::IRustEvent) -> (a: events::LoopAction)
        ensures
            a == events::handle_event_spec(ev),
            events::wakes_reader(a) == (ev is Input),
    {
        match ev {
            events::IRustEvent::Input(t) => events::LoopAction::HandleInput(
                events::dispatch_event(&t),
            ),
            events::IRustEvent::Notify => events::LoopAction::Resync,
            events::IRustEvent::Exit(e) => events::LoopAction::Terminate(e),
        }
    }
}

} // verus!
