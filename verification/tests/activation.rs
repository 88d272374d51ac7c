use florui_platform::activation::{
    ActivationEvent, ActivationEvents, ActivationQueue, MAX_QUEUED_EVENTS, RunOutcome, SingleInstance,
    classify_launch, classify_launch_with, handoff_outcome, matches_known_extension, mutex_name, pipe_name,
    sanitize_identifier, url_scheme,
};

fn args(rest: &[&str]) -> Vec<String> {
    std::iter::once("app.exe".to_owned())
        .chain(rest.iter().map(|s| s.to_string()))
        .collect()
}

#[test]
fn no_trailing_arguments_is_a_plain_launch() {
    let event = classify_launch(args(&[]), &["florui".to_owned()], &["garden".to_owned()]);
    assert_eq!(event, ActivationEvent::Launch { args: args(&[]) });
}

#[test]
fn ordinary_flags_stay_a_plain_launch() {
    let event = classify_launch(
        args(&["--flag", "value"]),
        &["florui".to_owned()],
        &["garden".to_owned()],
    );
    assert_eq!(
        event,
        ActivationEvent::Launch {
            args: args(&["--flag", "value"])
        }
    );
}

#[test]
fn a_declared_scheme_becomes_open_url() {
    let event = classify_launch(args(&["florui://open?id=42"]), &["florui".to_owned()], &[]);
    assert_eq!(
        event,
        ActivationEvent::OpenUrl {
            url: "florui://open?id=42".to_owned()
        }
    );
}

#[test]
fn scheme_matching_is_case_insensitive_on_both_sides() {
    let event = classify_launch(args(&["FLORUI://open?id=42"]), &["Florui".to_owned()], &[]);
    assert_eq!(
        event,
        ActivationEvent::OpenUrl {
            url: "FLORUI://open?id=42".to_owned()
        }
    );
}

#[test]
fn an_undeclared_scheme_stays_a_plain_launch() {
    let event = classify_launch(args(&["other://open?id=42"]), &["florui".to_owned()], &[]);
    assert_eq!(
        event,
        ActivationEvent::Launch {
            args: args(&["other://open?id=42"])
        }
    );
}

#[test]
fn malformed_uri_like_text_stays_a_plain_launch() {
    let event = classify_launch(args(&["not a url"]), &["florui".to_owned()], &[]);
    assert_eq!(
        event,
        ActivationEvent::Launch {
            args: args(&["not a url"])
        }
    );
}

#[test]
fn a_single_matching_file_becomes_open_files() {
    let event = classify_launch(
        args(&["C:\\docs\\plan.garden"]),
        &[],
        &["garden".to_owned()],
    );
    assert_eq!(
        event,
        ActivationEvent::OpenFiles {
            paths: vec!["C:\\docs\\plan.garden".to_owned()]
        }
    );
}

#[test]
fn multiple_matching_files_all_become_open_files() {
    let event = classify_launch(args(&["a.garden", "b.garden"]), &[], &["garden".to_owned()]);
    assert_eq!(
        event,
        ActivationEvent::OpenFiles {
            paths: vec!["a.garden".to_owned(), "b.garden".to_owned()]
        }
    );
}

#[test]
fn extension_matching_is_case_insensitive() {
    let event = classify_launch(args(&["plan.GARDEN"]), &[], &["garden".to_owned()]);
    assert_eq!(
        event,
        ActivationEvent::OpenFiles {
            paths: vec!["plan.GARDEN".to_owned()]
        }
    );
}

#[test]
fn a_mix_of_matching_and_unmatching_files_stays_a_plain_launch() {
    let event = classify_launch(args(&["a.garden", "b.txt"]), &[], &["garden".to_owned()]);
    assert_eq!(
        event,
        ActivationEvent::Launch {
            args: args(&["a.garden", "b.txt"])
        }
    );
}

#[test]
fn a_file_argument_with_no_extension_stays_a_plain_launch() {
    let event = classify_launch(args(&["README"]), &[], &["garden".to_owned()]);
    assert_eq!(
        event,
        ActivationEvent::Launch {
            args: args(&["README"])
        }
    );
}

#[test]
fn no_declared_schemes_or_extensions_never_classifies_anything() {
    let event = classify_launch(args(&["florui://open", "a.garden"]), &[], &[]);
    assert_eq!(
        event,
        ActivationEvent::Launch {
            args: args(&["florui://open", "a.garden"])
        }
    );
}

#[test]
fn mutex_and_pipe_names_are_scoped_to_local_session_namespace() {
    assert!(mutex_name("com.floregreen.garden").starts_with("Local\\"));
    assert!(pipe_name("com.floregreen.garden").starts_with("\\\\.\\pipe\\"));
}

#[test]
fn dev_and_production_identifiers_never_collide() {
    let prod = mutex_name("com.floregreen.garden");
    let dev = mutex_name("com.floregreen.garden.dev");
    assert_ne!(prod, dev);
    let prod_pipe = pipe_name("com.floregreen.garden");
    let dev_pipe = pipe_name("com.floregreen.garden.dev");
    assert_ne!(prod_pipe, dev_pipe);
}

#[test]
fn sanitize_identifier_replaces_disallowed_characters() {
    assert_eq!(
        sanitize_identifier("com.floregreen.garden"),
        "com.floregreen.garden"
    );
    assert_eq!(
        sanitize_identifier("weird/name\\with:chars"),
        "weird_name_with_chars"
    );
}

#[test]
fn queue_drains_in_fifo_order() {
    let mut queue = ActivationQueue::default();
    queue.push(ActivationEvent::OpenUrl {
        url: "a".to_owned(),
    });
    queue.push(ActivationEvent::OpenUrl {
        url: "b".to_owned(),
    });
    let drained = queue.take_pending();
    assert_eq!(
        drained,
        vec![
            ActivationEvent::OpenUrl {
                url: "a".to_owned()
            },
            ActivationEvent::OpenUrl {
                url: "b".to_owned()
            },
        ]
    );
    assert!(queue.take_pending().is_empty());
}

#[test]
fn queue_drops_oldest_once_it_is_full() {
    let mut queue = ActivationQueue::default();
    for i in 0..MAX_QUEUED_EVENTS + 3 {
        queue.push(ActivationEvent::OpenUrl { url: i.to_string() });
    }
    let drained = queue.take_pending();
    assert_eq!(drained.len(), MAX_QUEUED_EVENTS);
    assert_eq!(
        drained.first(),
        Some(&ActivationEvent::OpenUrl {
            url: "3".to_owned()
        })
    );
    assert_eq!(
        drained.last(),
        Some(&ActivationEvent::OpenUrl {
            url: (MAX_QUEUED_EVENTS + 2).to_string()
        })
    );
}

// ---- further cases ----

#[test]
fn url_scheme_reads_only_a_well_formed_scheme() {
    assert_eq!(url_scheme("florui://open"), Some("florui"));
    assert_eq!(url_scheme("a+b-c.d://x"), Some("a+b-c.d"));
    assert_eq!(url_scheme("x://y://z"), Some("x"));
    assert_eq!(url_scheme("1abc://x"), None);
    assert_eq!(url_scheme("://x"), None);
    assert_eq!(url_scheme("ab_c://x"), None);
    assert_eq!(url_scheme("florui:/open"), None);
    assert_eq!(url_scheme(""), None);
}

#[test]
fn extensions_follow_the_path_rules_of_bare_file_names() {
    let declared = ["garden".to_owned(), "".to_owned()];
    assert!(matches_known_extension("plan.garden", &declared));
    assert!(matches_known_extension("plan.GaRdEn", &declared));
    assert!(!matches_known_extension(".garden", &declared));
    assert!(!matches_known_extension("..", &declared));
    assert!(matches_known_extension("a.b.garden", &declared));
    assert!(!matches_known_extension("garden", &declared));
    assert!(matches_known_extension("plan.", &declared));
}

#[test]
fn a_url_among_several_arguments_is_not_a_url_open() {
    let event = classify_launch(
        args(&["florui://open", "florui://other"]),
        &["florui".to_owned()],
        &[],
    );
    assert_eq!(
        event,
        ActivationEvent::Launch {
            args: args(&["florui://open", "florui://other"])
        }
    );
}

#[test]
fn an_empty_argv_is_a_plain_launch() {
    let event = classify_launch(Vec::new(), &["florui".to_owned()], &["garden".to_owned()]);
    assert_eq!(event, ActivationEvent::Launch { args: Vec::new() });
}

#[test]
fn classification_with_given_extensions_uses_exactly_those() {
    let event = classify_launch_with(
        args(&["first", "second"]),
        &[],
        &["garden".to_owned()],
        &[Some("GARDEN".to_owned()), Some("garden".to_owned())],
    );
    assert_eq!(
        event,
        ActivationEvent::OpenFiles {
            paths: vec!["first".to_owned(), "second".to_owned()]
        }
    );
    let event = classify_launch_with(
        args(&["first", "second"]),
        &[],
        &["garden".to_owned()],
        &[Some("garden".to_owned()), None],
    );
    assert_eq!(
        event,
        ActivationEvent::Launch {
            args: args(&["first", "second"])
        }
    );
}

#[test]
fn names_carry_the_sanitized_identifier_after_the_fixed_prefix() {
    assert_eq!(
        mutex_name("a b"),
        "Local\\florui-single-instance-a_b"
    );
    assert_eq!(
        pipe_name("a b"),
        "\\\\.\\pipe\\florui-single-instance-a_b"
    );
    assert_eq!(sanitize_identifier("é-1"), "_-1");
}

#[test]
fn activation_events_hand_out_each_event_once() {
    let mut queue = ActivationQueue::new();
    queue.push(ActivationEvent::Launch { args: args(&[]) });
    let mut events = ActivationEvents(queue);
    assert_eq!(
        events.take_pending(),
        vec![ActivationEvent::Launch { args: args(&[]) }]
    );
    assert!(events.take_pending().is_empty());
}

#[test]
fn single_instance_defaults_to_an_empty_identifier_and_two_seconds() {
    let config = SingleInstance::default();
    assert_eq!(config.app_identifier, "");
    assert_eq!(config.handoff_timeout, std::time::Duration::from_secs(2));
    assert_eq!(config.clone(), config);
}

#[test]
fn a_delivered_handoff_is_handed_off_and_a_failed_one_returns_the_launch() {
    let launch = ActivationEvent::OpenUrl {
        url: "myapp://x".to_owned(),
    };
    assert!(matches!(handoff_outcome(true, launch.clone()), RunOutcome::HandedOff));
    match handoff_outcome(false, launch.clone()) {
        RunOutcome::HandoffFailed(event) => assert_eq!(event, launch),
        other => panic!("expected the launch back, got {other:?}"),
    }
}

#[test]
fn full_paths_with_a_plain_extension_match_on_every_platform() {
    let declared = vec!["garden".to_owned()];
    assert!(matches_known_extension("C:\\docs\\plan.garden", &declared));
    assert!(matches_known_extension("/home/me/Plan.GARDEN", &declared));
    assert!(!matches_known_extension("/home/me/plan.txt", &declared));
    assert!(!matches_known_extension("/home/me.garden/plan", &declared));
}

#[test]
fn declared_case_never_changes_a_full_path_classification() {
    let argv = args(&["C:\\docs\\plan.garden", "/tmp/notes.Garden"]);
    let lower = classify_launch(argv.clone(), &[], &["garden".to_owned()]);
    let upper = classify_launch(argv.clone(), &[], &["GARDEN".to_owned()]);
    assert_eq!(lower, upper);
    assert_eq!(
        lower,
        ActivationEvent::OpenFiles {
            paths: vec!["C:\\docs\\plan.garden".to_owned(), "/tmp/notes.Garden".to_owned()]
        }
    );
}
