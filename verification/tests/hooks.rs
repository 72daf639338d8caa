use minicd::repos::{hook_body, hook_decision, marker_version, HookAction};

#[test]
fn hook_text_carries_marker_port_and_path() {
    let body = hook_body("/srv/git/a", 8080);
    assert!(body.starts_with("#!/bin/bash\n"));
    assert!(body.contains("# minicd::hookfile_version 1\n"));
    assert!(body.contains("http://127.0.0.1:8080/api/postreceive"));
    assert!(body.contains("-d \"/srv/git/a $new_commit $ref_name\""));
}

#[test]
fn hook_text_renders_any_port() {
    let body = hook_body("/r", 65535);
    assert!(body.contains("http://127.0.0.1:65535/api/postreceive"));
    let body = hook_body("/r", 0);
    assert!(body.contains("http://127.0.0.1:0/api/postreceive"));
}

#[test]
fn missing_hook_is_created() {
    assert_eq!(HookAction::Create, hook_decision(None));
}

#[test]
fn installation_is_idempotent() {
    let body = hook_body("/srv/git/a", 8080);
    assert_eq!(Some(1), marker_version(&body));
    assert_eq!(HookAction::Leave, hook_decision(Some(&body)));
}

#[test]
fn outdated_hook_is_replaced() {
    let old = "#!/bin/bash\n# minicd::hookfile_version 0\nX\n";
    assert_eq!(Some(0), marker_version(old));
    assert_eq!(HookAction::Replace, hook_decision(Some(old)));
}

#[test]
fn current_and_newer_hooks_are_left() {
    let current = "#!/bin/sh\n# minicd::hookfile_version 1\n";
    assert_eq!(HookAction::Leave, hook_decision(Some(current)));
    let newer = "# minicd::hookfile_version 7\n";
    assert_eq!(HookAction::Leave, hook_decision(Some(newer)));
}

#[test]
fn foreign_hook_is_never_overwritten() {
    let foreign = "#!/bin/sh\nexec do-something\n";
    assert_eq!(None, marker_version(foreign));
    assert_eq!(HookAction::Leave, hook_decision(Some(foreign)));

    let near_miss = "# minicd::hookfile_version x\n";
    assert_eq!(None, marker_version(near_miss));
    assert_eq!(HookAction::Leave, hook_decision(Some(near_miss)));
}
