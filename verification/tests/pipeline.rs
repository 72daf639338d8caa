use minicd::definition::{Definition, Event, Job, JobState, Notify, NotifyTarget, Ref};
use minicd::git::{CmdOutcome, Repository};
use minicd::pipeline::{
    DefinitionOutcome, JobRun, Pipeline, PipelineAction, PipelineEvent, PipelineState,
};
use minicd::runner::{Error, NotifyOrder, Runner};
use minicd::secrets::{SecretManager, Value};

fn plain_job(run: &str, awaited: bool) -> Job {
    Job {
        on: None,
        notify: None,
        shell: None,
        await_result: if awaited { Some(true) } else { None },
        run: run.to_string(),
    }
}

fn ok_outcome() -> CmdOutcome {
    CmdOutcome::Success {
        stdout: String::new(),
    }
}

/// Drives a fresh pipeline up to the point where the definition file
/// has been found and must be loaded.
fn drive_to_loading(ref_name: &str) -> (Pipeline, PipelineAction) {
    let p = Pipeline::new(
        "remote".to_string(),
        "rev".to_string(),
        ref_name.to_string(),
    );
    let (p, a) = p.step(PipelineEvent::Begin);
    assert!(matches!(a, PipelineAction::CreateWorkspace));
    let (p, a) = p.step(PipelineEvent::WorkspaceCreated(Ok("/tmp/ws".to_string())));
    match &a {
        PipelineAction::RunGit(args) => {
            assert_eq!(vec!["clone", "remote", "/tmp/ws"], args.clone())
        }
        _ => panic!("expected a git clone"),
    }
    let (p, a) = p.step(PipelineEvent::CloneDone(ok_outcome()));
    match &a {
        PipelineAction::RunGit(args) => {
            assert_eq!(vec!["-C", "/tmp/ws", "checkout", "rev"], args.clone())
        }
        _ => panic!("expected a git checkout"),
    }
    let (p, a) = p.step(PipelineEvent::CheckoutDone(ok_outcome()));
    assert!(matches!(&a, PipelineAction::CheckDefinition { dir } if dir == "/tmp/ws"));
    let (p, a) = p.step(PipelineEvent::DefinitionPresent(true));
    assert!(matches!(&a, PipelineAction::LoadDefinition { dir } if dir == "/tmp/ws"));
    (p, a)
}

#[test]
fn malformed_ref_fails_before_any_side_effect() {
    let p = Pipeline::new(
        "remote".to_string(),
        "rev".to_string(),
        "not-a-ref".to_string(),
    );
    let (p, a) = p.step(PipelineEvent::Begin);
    assert!(matches!(a, PipelineAction::Finished));
    match &p.state {
        PipelineState::Done { result: Err(e) } => {
            assert!(matches!(e, Error::InvalidReferenceName));
            assert_eq!("invalid reference format", e.message());
        }
        _ => panic!("expected a finished run"),
    }
}

#[test]
fn missing_definition_file_reports_it() {
    let p = Pipeline::new(
        "remote".to_string(),
        "rev".to_string(),
        "refs/heads/main".to_string(),
    );
    let (p, _) = p.step(PipelineEvent::Begin);
    let (p, _) = p.step(PipelineEvent::WorkspaceCreated(Ok("/tmp/ws".to_string())));
    let (p, _) = p.step(PipelineEvent::CloneDone(ok_outcome()));
    let (p, _) = p.step(PipelineEvent::CheckoutDone(ok_outcome()));
    let (p, a) = p.step(PipelineEvent::DefinitionPresent(false));
    assert!(matches!(a, PipelineAction::Finished));
    match &p.state {
        PipelineState::Done { result: Err(e) } => {
            assert!(matches!(e, Error::NoDefinitionFile));
            assert_eq!("no definition file found", e.message());
        }
        _ => panic!("expected a finished run"),
    }
}

#[test]
fn clone_failure_carries_the_stderr() {
    let p = Pipeline::new(
        "remote".to_string(),
        "rev".to_string(),
        "refs/heads/main".to_string(),
    );
    let (p, _) = p.step(PipelineEvent::Begin);
    let (p, _) = p.step(PipelineEvent::WorkspaceCreated(Ok("/tmp/ws".to_string())));
    let (p, a) = p.step(PipelineEvent::CloneDone(CmdOutcome::Failed {
        code: 128,
        stderr: "fatal: no repo".to_string(),
    }));
    assert!(matches!(a, PipelineAction::Finished));
    match &p.state {
        PipelineState::Done { result: Err(e) } => {
            assert_eq!(
                "git operation failed: Command failed (128): fatal: no repo",
                e.message()
            );
        }
        _ => panic!("expected a finished run"),
    }
}

#[test]
fn workspace_failure_ends_the_run() {
    let p = Pipeline::new(
        "r".to_string(),
        "c".to_string(),
        "refs/heads/m".to_string(),
    );
    let (p, _) = p.step(PipelineEvent::Begin);
    let (p, a) = p.step(PipelineEvent::WorkspaceCreated(Err("disk full".to_string())));
    assert!(matches!(a, PipelineAction::Finished));
    match &p.state {
        PipelineState::Done { result: Err(e) } => {
            assert_eq!("failed creating temp directory: disk full", e.message());
        }
        _ => panic!("expected a finished run"),
    }
}

#[test]
fn happy_path_synchronous() {
    let (p, _) = drive_to_loading("refs/heads/main");
    let def = Definition {
        name: "p".to_string(),
        jobs: vec![("b".to_string(), plain_job("true", true))],
    };
    let (p, a) = p.step(PipelineEvent::DefinitionLoaded(DefinitionOutcome::Parsed(
        def,
    )));
    assert!(matches!(
        a,
        PipelineAction::RunJob {
            index: 0,
            awaited: true
        }
    ));

    let runner = Runner::new(SecretManager::empty(), false);
    let repo = Repository::clone("remote", "/tmp/ws", ok_outcome()).unwrap();
    let mut job_run = JobRun::new(
        plain_job("true", true),
        "p".to_string(),
        Ref::Branch("main".to_string()),
        repo,
        ".".to_string(),
    );
    let start_orders = job_run.begin(&runner);
    assert!(start_orders.is_empty());
    let end_orders = job_run.execute(&runner);
    assert!(end_orders.is_empty());

    let (p, a) = p.step(PipelineEvent::JobDone);
    assert!(matches!(a, PipelineAction::Finished));
    assert!(matches!(
        &p.state,
        PipelineState::Done { result: Ok(()) }
    ));
}

#[test]
fn job_skipped_when_tag_filter_meets_branch_push() {
    let (p, _) = drive_to_loading("refs/heads/main");
    let mut job = plain_job("true", true);
    job.on = Some(Ref::Tag("v.*".to_string()));
    let def = Definition {
        name: "p".to_string(),
        jobs: vec![("b".to_string(), job)],
    };
    let (p, a) = p.step(PipelineEvent::DefinitionLoaded(DefinitionOutcome::Parsed(
        def,
    )));
    assert!(matches!(a, PipelineAction::Finished));
    assert!(matches!(
        &p.state,
        PipelineState::Done { result: Ok(()) }
    ));
}

#[test]
fn jobs_dispatch_in_declaration_order() {
    let (p, _) = drive_to_loading("refs/heads/main");
    let mut skipped = plain_job("true", true);
    skipped.on = Some(Ref::Branch("other".to_string()));
    let def = Definition {
        name: "p".to_string(),
        jobs: vec![
            ("a".to_string(), skipped),
            ("b".to_string(), plain_job("true", false)),
            ("c".to_string(), plain_job("true", true)),
        ],
    };
    let (p, a) = p.step(PipelineEvent::DefinitionLoaded(DefinitionOutcome::Parsed(
        def,
    )));
    assert!(matches!(
        a,
        PipelineAction::RunJob {
            index: 1,
            awaited: false
        }
    ));
    let (p, a) = p.step(PipelineEvent::JobDone);
    assert!(matches!(
        a,
        PipelineAction::RunJob {
            index: 2,
            awaited: true
        }
    ));
    let (p, a) = p.step(PipelineEvent::JobDone);
    assert!(matches!(a, PipelineAction::Finished));
    assert!(matches!(
        &p.state,
        PipelineState::Done { result: Ok(()) }
    ));
}

#[test]
fn detached_failure_orders_a_job_failed_mail() {
    let job = Job {
        on: None,
        notify: Some(vec![Notify {
            to: vec![NotifyTarget::EMail {
                address: "a@x".to_string(),
            }],
            on: Some(vec![Event::Failure]),
        }]),
        shell: None,
        await_result: None,
        run: "false".to_string(),
    };
    let runner = Runner::new(SecretManager::empty(), true);
    let repo = Repository::clone("remote", "/tmp/ws", ok_outcome()).unwrap();
    let mut job_run = JobRun::new(
        job,
        "p".to_string(),
        Ref::Branch("main".to_string()),
        repo,
        ".".to_string(),
    );
    let start_orders = job_run.begin(&runner);
    assert!(start_orders.is_empty());
    let end_orders = job_run.execute(&runner);
    assert_eq!(1, end_orders.len());
    match &end_orders[0] {
        NotifyOrder::Email {
            address, subject, ..
        } => {
            assert_eq!("a@x", address);
            assert!(subject.starts_with("Job failed"));
        }
        _ => panic!("expected a mail order"),
    }
}

#[test]
fn script_runs_and_its_output_is_captured() {
    let runner = Runner::new(SecretManager::empty(), false);
    let job = plain_job("echo hi", true);
    assert_eq!(Ok("hi\n".to_string()), {
        let r = runner.run_script(&job, ".");
        r.map_err(|e| e.message())
    });

    let failing = plain_job("exit 3", true);
    match runner.run_script(&failing, ".") {
        Err(Error::ScriptNonZeroExitCode { exit_code, .. }) => assert_eq!(3, exit_code),
        _ => panic!("expected a non-zero exit"),
    }
}

#[test]
fn secret_interpolation_reaches_url_and_environment() {
    let secrets = SecretManager::new(Value::Mapping(vec![(
        "svc".to_string(),
        Value::Mapping(vec![("tok".to_string(), Value::Value("s3cr3t".to_string()))]),
    )]));
    let runner = Runner::new(secrets, true);
    let job = Job {
        on: None,
        notify: Some(vec![Notify {
            to: vec![NotifyTarget::WebHook {
                url: "https://h/{{svc.tok}}".to_string(),
                method: None,
                headers: None,
            }],
            on: Some(vec![Event::Start]),
        }]),
        shell: None,
        await_result: Some(true),
        run: "true".to_string(),
    };
    let repo = Repository::clone("remote", "/tmp/ws", ok_outcome()).unwrap();
    let orders = runner.state_orders(
        &job,
        JobState::Start,
        "p",
        &repo,
        &Ref::Branch("main".to_string()),
        None,
    );
    assert_eq!(1, orders.len());
    match &orders[0] {
        NotifyOrder::Webhook { url, method, headers } => {
            assert_eq!("https://h/s3cr3t", url);
            assert_eq!("GET", method);
            assert!(headers.is_empty());
        }
        _ => panic!("expected a webhook order"),
    }

    let inv = runner.script_invocation(&job, ".");
    assert!(inv
        .env_vars
        .iter()
        .any(|(k, v)| k == "SECRETS_SVC_TOK" && v == "s3cr3t"));
}

#[test]
fn webhook_method_and_header_validation() {
    let runner = Runner::new(SecretManager::empty(), true);
    let job = Job {
        on: None,
        notify: Some(vec![
            Notify {
                to: vec![NotifyTarget::WebHook {
                    url: "https://h/".to_string(),
                    method: Some("not a method".to_string()),
                    headers: None,
                }],
                on: Some(vec![Event::Start]),
            },
            Notify {
                to: vec![NotifyTarget::WebHook {
                    url: "https://h/".to_string(),
                    method: Some("POST".to_string()),
                    headers: Some(vec![("x-token".to_string(), "v".to_string())]),
                }],
                on: Some(vec![Event::Start]),
            },
        ]),
        shell: None,
        await_result: Some(true),
        run: "true".to_string(),
    };
    let repo = Repository::clone("remote", "/tmp/ws", ok_outcome()).unwrap();
    let orders = runner.state_orders(
        &job,
        JobState::Start,
        "p",
        &repo,
        &Ref::Branch("main".to_string()),
        None,
    );
    assert_eq!(2, orders.len());
    match &orders[0] {
        NotifyOrder::Invalid(Error::WebhookInvalidMethod(m)) => {
            assert_eq!("not a method", m)
        }
        _ => panic!("expected an invalid method"),
    }
    match &orders[1] {
        NotifyOrder::Webhook { method, headers, .. } => {
            assert_eq!("POST", method);
            assert_eq!(
                vec![("x-token".to_string(), "v".to_string())],
                headers.clone()
            );
        }
        _ => panic!("expected a webhook order"),
    }
}

#[test]
fn definition_read_and_parse_failures_are_told_apart() {
    let (p, _) = drive_to_loading("refs/heads/main");
    let (p, a) = p.step(PipelineEvent::DefinitionLoaded(DefinitionOutcome::ReadFailed(
        "io down".to_string(),
    )));
    assert!(matches!(a, PipelineAction::Finished));
    match &p.state {
        PipelineState::Done { result: Err(e) } => {
            assert_eq!("failed reading definition file: io down", e.message());
        }
        _ => panic!("expected a finished run"),
    }

    let (p, _) = drive_to_loading("refs/heads/main");
    let (p, a) = p.step(PipelineEvent::DefinitionLoaded(
        DefinitionOutcome::ParseFailed("bad yaml".to_string()),
    ));
    assert!(matches!(a, PipelineAction::Finished));
    match &p.state {
        PipelineState::Done { result: Err(e) } => {
            assert_eq!("failed deserializing definition file: bad yaml", e.message());
        }
        _ => panic!("expected a finished run"),
    }
}

#[test]
fn unspawnable_git_is_a_command_execution_failure() {
    let p = Pipeline::new(
        "remote".to_string(),
        "rev".to_string(),
        "refs/heads/main".to_string(),
    );
    let (p, _) = p.step(PipelineEvent::Begin);
    let (p, _) = p.step(PipelineEvent::WorkspaceCreated(Ok("/tmp/ws".to_string())));
    let (p, _) = p.step(PipelineEvent::CloneDone(CmdOutcome::SpawnError {
        message: "not found".to_string(),
    }));
    match &p.state {
        PipelineState::Done { result: Err(e) } => {
            assert_eq!(
                "git operation failed: Command execution failed: not found",
                e.message()
            );
        }
        _ => panic!("expected a finished run"),
    }
}

#[test]
fn unrunnable_shell_is_a_script_error() {
    let runner = Runner::new(SecretManager::empty(), false);
    let mut job = plain_job("true", true);
    job.shell = Some(minicd::definition::ValueOrList::Value(
        "/nonexistent-shell-for-this-test".to_string(),
    ));
    match runner.run_script(&job, ".") {
        Err(Error::Script(_)) => {}
        other => panic!("expected the runner itself to fail, got {other:?}"),
    }
}

#[test]
fn shell_list_becomes_runner_and_arguments() {
    let runner = Runner::new(SecretManager::empty(), false);
    let mut job = plain_job("1 + 1", true);
    job.shell = Some(minicd::definition::ValueOrList::List(vec![
        "sh".to_string(),
        "-e".to_string(),
    ]));
    let inv = runner.script_invocation(&job, ".");
    assert_eq!(Some("sh".to_string()), inv.runner);
    assert_eq!(Some(vec!["-e".to_string()]), inv.runner_args);
    assert_eq!("1 + 1", inv.script);
    assert_eq!(".", inv.working_directory);
}

#[test]
fn invalid_header_is_reported_with_its_pair() {
    let runner = Runner::new(SecretManager::empty(), true);
    let job = Job {
        on: None,
        notify: Some(vec![Notify {
            to: vec![NotifyTarget::WebHook {
                url: "https://h/".to_string(),
                method: Some("POST".to_string()),
                headers: Some(vec![("not a header".to_string(), "v".to_string())]),
            }],
            on: Some(vec![Event::Start]),
        }]),
        shell: None,
        await_result: Some(true),
        run: "true".to_string(),
    };
    let repo = Repository::clone("remote", "/tmp/ws", ok_outcome()).unwrap();
    let orders = runner.state_orders(
        &job,
        JobState::Start,
        "p",
        &repo,
        &Ref::Branch("main".to_string()),
        None,
    );
    assert_eq!(1, orders.len());
    match &orders[0] {
        NotifyOrder::Invalid(Error::WebhookInvalidHeader { name, value }) => {
            assert_eq!("not a header", name);
            assert_eq!("v", value);
        }
        _ => panic!("expected an invalid header"),
    }
}

#[test]
fn error_words_render_negative_exit_codes() {
    let e = Error::Git(minicd::git::Error::CommandStatus {
        code: -1,
        message: "killed".to_string(),
    });
    assert_eq!("git operation failed: Command failed (-1): killed", e.message());

    let e = Error::ScriptNonZeroExitCode {
        exit_code: 130,
        std_err: "interrupted".to_string(),
    };
    assert_eq!(
        "script failed with non-zero exit code 130: interrupted",
        e.message()
    );

    let e = Error::WebhookFailed("connection refused".to_string());
    assert_eq!(
        "notification webhook request failed: connection refused",
        e.message()
    );

    let e = Error::MailFailed("relay down".to_string());
    assert_eq!("notification mail send failed: relay down", e.message());
}

#[test]
fn an_event_out_of_place_changes_nothing() {
    let p = Pipeline::new(
        "remote".to_string(),
        "rev".to_string(),
        "refs/heads/main".to_string(),
    );
    let (p, a) = p.step(PipelineEvent::JobDone);
    assert!(matches!(a, PipelineAction::Ignored));
    assert!(matches!(&p.state, PipelineState::Created));
    let (p, a) = p.step(PipelineEvent::DefinitionPresent(true));
    assert!(matches!(a, PipelineAction::Ignored));
    assert!(matches!(&p.state, PipelineState::Created));
}

#[test]
fn email_without_mailer_becomes_a_warning() {
    let runner = Runner::new(SecretManager::empty(), false);
    let job = Job {
        on: None,
        notify: Some(vec![Notify {
            to: vec![NotifyTarget::EMail {
                address: "a@x".to_string(),
            }],
            on: Some(vec![Event::Start]),
        }]),
        shell: None,
        await_result: Some(true),
        run: "true".to_string(),
    };
    let repo = Repository::clone("remote", "/tmp/ws", ok_outcome()).unwrap();
    let orders = runner.state_orders(
        &job,
        JobState::Start,
        "p",
        &repo,
        &Ref::Branch("main".to_string()),
        None,
    );
    assert_eq!(1, orders.len());
    assert!(matches!(&orders[0], NotifyOrder::MailerMissing));
}
