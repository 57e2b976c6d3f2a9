use apple_aslrtool::{
    attempts_for_name, attempts_for_pid, matching_pids_of, resolve_by_name, resolve_by_pid,
    Action, Attempt, Event, Failure, Origin, Phase, ProcessEntry,
};

fn entry(pid: u32, name: &str) -> ProcessEntry {
    ProcessEntry { pid, name: Some(String::from(name)) }
}

fn listing() -> Vec<ProcessEntry> {
    vec![
        entry(1, "launchd"),
        entry(501, "Notes"),
        ProcessEntry { pid: 600, name: None },
        entry(650, "NotesHelper"),
        entry(700, "notes"),
        entry(777, "Notes"),
    ]
}

#[test]
fn name_resolves_to_every_exact_match() {
    let pids = resolve_by_name(Some(listing()), &String::from("Notes")).unwrap();
    assert_eq!(pids, vec![501, 777]);
}

#[test]
fn name_match_is_case_sensitive_and_whole() {
    let pids = resolve_by_name(Some(listing()), &String::from("notes")).unwrap();
    assert_eq!(pids, vec![700]);
    assert_eq!(
        resolve_by_name(Some(listing()), &String::from("Note")),
        Err(Failure::TargetNotFound)
    );
}

#[test]
fn unknown_name_is_not_found() {
    assert_eq!(
        resolve_by_name(Some(listing()), &String::from("Safari")),
        Err(Failure::TargetNotFound)
    );
    assert_eq!(resolve_by_name(Some(Vec::new()), &String::from("Notes")), Err(Failure::TargetNotFound));
}

#[test]
fn failed_listing_is_not_a_missing_name() {
    assert_eq!(resolve_by_name(None, &String::from("Notes")), Err(Failure::EnumerationFailed));
    assert!(matches!(
        attempts_for_name(None, &String::from("Notes")),
        Err(Failure::EnumerationFailed)
    ));
}

#[test]
fn repeated_pid_is_reported_once() {
    let entries = vec![entry(9, "a"), entry(3, "a"), entry(9, "a")];
    assert_eq!(matching_pids_of(&entries, &String::from("a")), vec![9, 3]);
}

#[test]
fn explicit_pid_is_single_target() {
    assert_eq!(resolve_by_pid(4242), vec![4242]);
    assert_eq!(
        attempts_for_pid(4242),
        vec![Attempt { pid: 4242, origin: Origin::ExplicitPid, phase: Phase::Pending }]
    );
}

#[test]
fn name_targets_are_classified_first() {
    let attempts = attempts_for_name(Some(listing()), &String::from("Notes")).unwrap();
    assert_eq!(attempts, vec![Attempt::discovered(501), Attempt::discovered(777)]);
    for a in attempts {
        assert_eq!(a.origin, Origin::NameMatch);
        assert_eq!(a.phase, Phase::Pending);
    }
}

#[test]
fn hardened_match_skipped_unprotected_match_attempted() {
    let base = 0x1_0000_0000;
    let mut attempts = attempts_for_name(Some(listing()), &String::from("Notes")).unwrap();
    let statuses = [Some(0x10000u32), Some(0u32)];
    let mut acquired = Vec::new();
    for (a, status) in attempts.iter_mut().zip(statuses) {
        assert_eq!(a.advance(Event::Start, base), Action::QueryStatus);
        let next = a.advance(Event::Status(status), base);
        if next == Action::AcquireTask {
            acquired.push(a.pid);
        } else {
            assert_eq!(next, Action::Skip);
            assert!(a.is_finished());
        }
    }
    assert_eq!(acquired, vec![777]);
}

#[test]
fn explicit_pid_slide_scenario() {
    let base = 0x1_0000_0000;
    let mut a = Attempt::explicit(321);
    assert_eq!(a.advance(Event::Start, base), Action::AcquireTask);
    assert_eq!(a.advance(Event::TaskGrab(true), base), Action::QueryRegion);
    assert_eq!(
        a.advance(Event::Region(Some(0x1_0000_8000)), base),
        Action::Finish { result: Ok(0x8000), release_task: true }
    );
    assert!(a.is_finished());
}

#[test]
fn explicit_hardened_pid_still_attempted() {
    let base = 0x1_0000_0000;
    let mut a = Attempt::explicit(88);
    assert_eq!(a.advance(Event::Start, base), Action::AcquireTask);
    assert_eq!(
        a.advance(Event::TaskGrab(false), base),
        Action::Finish { result: Err(Failure::TaskGrabFailure), release_task: false }
    );
}

#[test]
fn region_below_base_releases_handle() {
    let base = 0x1_0000_0000;
    let mut a = Attempt::discovered(5);
    assert_eq!(a.advance(Event::Start, base), Action::QueryStatus);
    assert_eq!(a.advance(Event::Status(None), base), Action::AcquireTask);
    assert_eq!(a.advance(Event::TaskGrab(true), base), Action::QueryRegion);
    assert_eq!(
        a.advance(Event::Region(Some(0x1000)), base),
        Action::Finish { result: Err(Failure::SlideUnavailable), release_task: true }
    );
}

#[test]
fn out_of_order_event_changes_nothing() {
    let base = 0x1_0000_0000;
    let mut a = Attempt::explicit(12);
    assert_eq!(a.advance(Event::Region(Some(0x1_0000_8000)), base), Action::Idle);
    assert_eq!(a, Attempt::explicit(12));
    assert_eq!(a.advance(Event::Start, base), Action::AcquireTask);
    assert_eq!(a.advance(Event::Status(Some(0)), base), Action::Idle);
    assert_eq!(a.phase, Phase::Acquiring);
    a.advance(Event::TaskGrab(false), base);
    assert_eq!(a.advance(Event::Start, base), Action::Idle);
    assert!(a.is_finished());
}
