use minicd::api::{parse_postreceive_body, str_to_ip, ResponseError};
use minicd::git::{CmdOutcome, Repository};

#[test]
fn two_tokens_name_the_missing_one() {
    let err = parse_postreceive_body("remote commit").unwrap_err();
    assert_eq!(
        "missing body args: reference name parameter",
        err.message()
    );
    assert_eq!(400, err.status_code());
}

#[test]
fn fewer_tokens_name_the_first_missing_one() {
    let err = parse_postreceive_body("").unwrap_err();
    assert_eq!("missing body args: remote repository", err.message());

    let err = parse_postreceive_body("remote").unwrap_err();
    assert_eq!("missing body args: reference parameter", err.message());
}

#[test]
fn surplus_spaces_are_ignored() {
    let (remote, commit, refname) =
        parse_postreceive_body("  remote   commit  refs/heads/x  ").unwrap();
    assert_eq!("remote", remote);
    assert_eq!("commit", commit);
    assert_eq!("refs/heads/x", refname);
}

#[test]
fn extra_tokens_are_dropped() {
    let (remote, commit, refname) =
        parse_postreceive_body("remote commit refs/heads/x extra more").unwrap();
    assert_eq!("remote", remote);
    assert_eq!("commit", commit);
    assert_eq!("refs/heads/x", refname);
}

#[test]
fn a_body_that_is_not_text_answers_400() {
    let err = ResponseError::InvalidBodyFormat("invalid utf-8 sequence".to_string());
    assert_eq!(400, err.status_code());
    assert_eq!(
        "invalid body format: invalid utf-8 sequence",
        err.message()
    );
}

#[test]
fn run_failures_answer_500() {
    let err = ResponseError::RunFailed(minicd::runner::Error::NoDefinitionFile);
    assert_eq!(500, err.status_code());
    assert_eq!("run failed: no definition file found", err.message());
}

#[test]
fn dotted_quads_parse() {
    assert_eq!(Some((127, 0, 0, 1)), str_to_ip("127.0.0.1"));
    assert_eq!(Some((0, 0, 0, 0)), str_to_ip("0.0.0.0"));
    assert_eq!(None, str_to_ip("1.2.3"));
    assert_eq!(None, str_to_ip("256.0.0.1"));
    assert_eq!(None, str_to_ip("a.b.c.d"));
    assert_eq!(None, str_to_ip("1.2.3.4.5"));
}

#[test]
fn repository_remembers_its_places() {
    let ok = CmdOutcome::Success {
        stdout: String::new(),
    };
    let mut repo = Repository::clone("remote", "/tmp/ws", ok).unwrap();
    assert_eq!("remote", repo.get_remote());
    assert_eq!("/tmp/ws", repo.get_dir());
    assert_eq!("HEAD", repo.get_ref());

    let ok = CmdOutcome::Success {
        stdout: String::new(),
    };
    repo.checkout("abc123", ok).unwrap();
    assert_eq!("abc123", repo.get_ref());

    let failed = CmdOutcome::Failed {
        code: 1,
        stderr: "nope".to_string(),
    };
    assert!(repo.checkout("def", failed).is_err());
    assert_eq!("abc123", repo.get_ref());
}

#[test]
fn ref_name_prefers_the_tag_probe() {
    let ok = CmdOutcome::Success {
        stdout: String::new(),
    };
    let repo = Repository::clone("remote", "/tmp/ws", ok).unwrap();

    let describe = CmdOutcome::Success {
        stdout: "v1.0\n".to_string(),
    };
    let branch = CmdOutcome::Failed {
        code: 1,
        stderr: String::new(),
    };
    assert_eq!("v1.0\n", repo.get_ref_name(describe, branch).unwrap());

    let describe = CmdOutcome::Failed {
        code: 128,
        stderr: String::new(),
    };
    let branch = CmdOutcome::Success {
        stdout: "* (HEAD detached)\n  main\n".to_string(),
    };
    assert_eq!("main", repo.get_ref_name(describe, branch).unwrap());

    let describe = CmdOutcome::Failed {
        code: 128,
        stderr: String::new(),
    };
    let branch = CmdOutcome::Success {
        stdout: "only-one-line".to_string(),
    };
    assert_eq!("HEAD", repo.get_ref_name(describe, branch).unwrap());

    let describe = CmdOutcome::EncodeError;
    let branch = CmdOutcome::Failed {
        code: 2,
        stderr: "boom".to_string(),
    };
    assert!(repo.get_ref_name(describe, branch).is_err());
}
