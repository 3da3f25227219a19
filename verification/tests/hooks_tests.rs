//! Runtime checks of hook routing, version negotiation and response
//! combination.
use irust_core::hooks::{
    Hook, HookRouter, InvokeOutcome, ScriptDescriptor, ScriptType, combine_responses,
    degrade_outcome, hook_from_name, hook_name,
};
use irust_core::version::{Version, VersionReq};

fn descriptor(req: Version, hooks: Vec<Hook>) -> ScriptDescriptor {
    ScriptDescriptor {
        name: b"script".to_vec(),
        script_type: ScriptType::OneOff,
        version_req: VersionReq { min: req },
        hooks,
    }
}

const ALL_HOOKS: [Hook; 5] = [
    Hook::SetTitle,
    Hook::SetWelcomeMsg,
    Hook::OutputEvent,
    Hook::Startup,
    Hook::Shutdown,
];

#[test]
fn every_catalog_name_routes_back_to_its_hook() {
    for h in ALL_HOOKS {
        let name = hook_name(&h);
        assert_eq!(hook_from_name(name.as_slice()), Some(h));
    }
}

#[test]
fn wire_names_match_the_catalog() {
    assert_eq!(hook_name(&Hook::SetTitle), b"SetTitle".to_vec());
    assert_eq!(hook_name(&Hook::SetWelcomeMsg), b"SetWelcomeMsg".to_vec());
    assert_eq!(hook_name(&Hook::OutputEvent), b"OutputEvent".to_vec());
    assert_eq!(hook_name(&Hook::Startup), b"Startup".to_vec());
    assert_eq!(hook_name(&Hook::Shutdown), b"Shutdown".to_vec());
}

#[test]
fn unknown_names_route_nowhere() {
    assert_eq!(hook_from_name(b"Resize"), None);
    assert_eq!(hook_from_name(b""), None);
    assert_eq!(hook_from_name(b"SetTitl"), None);
    assert_eq!(hook_from_name(b"SetTitleX"), None);
}

#[test]
fn failed_version_negotiation_means_zero_dispatch() {
    let mut r = HookRouter::new(Version { major: 1, minor: 29, patch: 0 });
    r.register(descriptor(Version { major: 1, minor: 30, patch: 6 }, ALL_HOOKS.to_vec()));
    for h in ALL_HOOKS {
        assert!(r.dispatch_targets(h).is_empty());
    }
    assert!(!r.scripts[0].active);
}

#[test]
fn satisfied_requirement_admits_the_script() {
    let mut r = HookRouter::new(Version { major: 1, minor: 30, patch: 6 });
    r.register(descriptor(Version { major: 1, minor: 30, patch: 6 }, vec![Hook::SetTitle]));
    assert_eq!(r.dispatch_targets(Hook::SetTitle), vec![0]);
    assert!(r.dispatch_targets(Hook::Shutdown).is_empty());
}

#[test]
fn dispatch_follows_registration_order() {
    let mut r = HookRouter::new(Version { major: 2, minor: 0, patch: 0 });
    r.register(descriptor(Version { major: 1, minor: 0, patch: 0 }, vec![Hook::OutputEvent]));
    r.register(descriptor(Version { major: 1, minor: 0, patch: 0 }, vec![Hook::Shutdown]));
    r.register(descriptor(Version { major: 1, minor: 0, patch: 0 }, vec![Hook::OutputEvent]));
    assert_eq!(r.dispatch_targets(Hook::OutputEvent), vec![0, 2]);
}

#[test]
fn dead_scripts_stay_out_of_every_later_dispatch() {
    let mut r = HookRouter::new(Version { major: 2, minor: 0, patch: 0 });
    r.register(descriptor(Version { major: 1, minor: 0, patch: 0 }, vec![Hook::OutputEvent]));
    r.register(descriptor(Version { major: 1, minor: 0, patch: 0 }, vec![Hook::OutputEvent]));
    r.mark_dead(0);
    assert_eq!(r.dispatch_targets(Hook::OutputEvent), vec![1]);
    assert_eq!(r.dispatch_targets(Hook::OutputEvent), vec![1]);
}

#[test]
fn last_override_wins() {
    let rs = vec![Some(b"first".to_vec()), None, Some(b"second".to_vec()), None];
    assert_eq!(combine_responses(&rs), Some(b"second".to_vec()));
}

#[test]
fn no_override_never_erases_a_prior_override() {
    let rs = vec![Some(b"kept".to_vec()), None, None];
    assert_eq!(combine_responses(&rs), Some(b"kept".to_vec()));
}

#[test]
fn all_declining_scripts_leave_no_override() {
    let rs: Vec<Option<Vec<u8>>> = vec![None, None];
    assert_eq!(combine_responses(&rs), None);
    assert_eq!(combine_responses(&Vec::new()), None);
}

#[test]
fn failures_degrade_to_pass_through() {
    assert_eq!(degrade_outcome(InvokeOutcome::Crashed), None);
    assert_eq!(degrade_outcome(InvokeOutcome::TimedOut), None);
    assert_eq!(degrade_outcome(InvokeOutcome::Undecodable), None);
    assert_eq!(degrade_outcome(InvokeOutcome::Response(None)), None);
    assert_eq!(
        degrade_outcome(InvokeOutcome::Response(Some(b"t".to_vec()))),
        Some(b"t".to_vec())
    );
}
