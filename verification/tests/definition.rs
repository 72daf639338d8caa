use minicd::definition::{Event, Job, JobState, Notify, NotifyTarget, Ref};

#[test]
fn ref_roundtrip_branch() {
    let r = Ref::parse("refs/heads/x").unwrap();
    assert!(matches!(&r, Ref::Branch(n) if n == "x"));
    assert_eq!("refs/heads/x", r.display());
}

#[test]
fn ref_roundtrip_tag() {
    let r = Ref::parse("refs/tags/v1.2").unwrap();
    assert!(matches!(&r, Ref::Tag(n) if n == "v1.2"));
    assert_eq!("refs/tags/v1.2", r.display());
}

#[test]
fn ref_parse_rejects_other_paths() {
    assert!(Ref::parse("refs/remotes/origin/x").is_err());
    assert!(Ref::parse("main").is_err());
    assert!(Ref::parse("").is_err());
    assert!(Ref::parse("refs/heads").is_err());
}

#[test]
fn ref_match_same_kind_by_regex() {
    let filter = Ref::Branch("^ma.n$".to_string());
    assert!(filter.matches(&Ref::Branch("main".to_string())));
    assert!(!filter.matches(&Ref::Branch("maintenance".to_string())));

    let tags = Ref::Tag("v.*".to_string());
    assert!(tags.matches(&Ref::Tag("v1.2.3".to_string())));
}

#[test]
fn ref_match_rejects_kind_mismatch() {
    let branch_filter = Ref::Branch("main".to_string());
    assert!(!branch_filter.matches(&Ref::Tag("main".to_string())));

    let tag_filter = Ref::Tag(".*".to_string());
    assert!(!tag_filter.matches(&Ref::Branch("main".to_string())));
}

#[test]
fn ref_match_invalid_regex_matches_nothing() {
    let filter = Ref::Branch("(".to_string());
    assert!(!filter.matches(&Ref::Branch("(".to_string())));
}

#[test]
fn event_matches_states() {
    assert!(Event::All.matches(&JobState::Start));
    assert!(Event::All.matches(&JobState::Success));
    assert!(Event::All.matches(&JobState::Failure));

    assert!(Event::Start.matches(&JobState::Start));
    assert!(!Event::Start.matches(&JobState::Success));

    assert!(Event::Success.matches(&JobState::Success));
    assert!(!Event::Success.matches(&JobState::Failure));

    assert!(Event::Failure.matches(&JobState::Failure));
    assert!(!Event::Failure.matches(&JobState::Start));

    assert!(Event::Finish.matches(&JobState::Success));
    assert!(Event::Finish.matches(&JobState::Failure));
    assert!(!Event::Finish.matches(&JobState::Start));
}

fn email(addr: &str) -> NotifyTarget {
    NotifyTarget::EMail {
        address: addr.to_string(),
    }
}

#[test]
fn get_notify_filters_by_event() {
    let job = Job {
        on: None,
        notify: Some(vec![
            Notify {
                to: vec![email("a@x")],
                on: Some(vec![Event::Failure]),
            },
            Notify {
                to: vec![email("b@x")],
                on: Some(vec![Event::All]),
            },
            Notify {
                to: vec![email("c@x")],
                on: None,
            },
        ]),
        shell: None,
        await_result: None,
        run: "true".to_string(),
    };

    let on_failure = job.get_notify(JobState::Failure).unwrap();
    assert_eq!(2, on_failure.len());
    assert!(matches!(&on_failure[0].to[0], NotifyTarget::EMail { address } if address == "a@x"));
    assert!(matches!(&on_failure[1].to[0], NotifyTarget::EMail { address } if address == "b@x"));

    let on_start = job.get_notify(JobState::Start).unwrap();
    assert_eq!(1, on_start.len());

    let no_notifies = Job {
        on: None,
        notify: None,
        shell: None,
        await_result: None,
        run: "true".to_string(),
    };
    assert!(no_notifies.get_notify(JobState::Start).is_none());

    let empty_notifies = Job {
        on: None,
        notify: Some(vec![]),
        shell: None,
        await_result: None,
        run: "true".to_string(),
    };
    let selected = empty_notifies.get_notify(JobState::Start).unwrap();
    assert!(selected.is_empty());
}

#[test]
fn subject_and_body_wording() {
    let rf = Ref::Branch("main".to_string());
    assert_eq!("Job failed", JobState::Failure.get_subject_prefix());
    assert_eq!(
        "Job finished successful: proj @ refs/heads/main",
        JobState::Success.get_subject("proj", &rf)
    );
    assert_eq!(
        "A job has been started on project proj.\n\nReference: refs/heads/main (abc123)\n",
        JobState::Start.get_body("proj", &rf, "abc123", None)
    );
    assert_eq!(
        "A job on project proj has failed.\n\nReference: refs/heads/main (abc123)\n\nError:\nboom\n",
        JobState::Failure.get_body("proj", &rf, "abc123", Some("boom"))
    );
}
