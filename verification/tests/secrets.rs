use std::collections::HashMap;

use minicd::secrets::{SecretManager, Value};

fn store_ab_foo() -> SecretManager {
    SecretManager::new(Value::Mapping(vec![(
        "a".to_string(),
        Value::Mapping(vec![("b".to_string(), Value::Value("foo".to_string()))]),
    )]))
}

#[test]
fn get() {
    let secrets = store_ab_foo();

    assert_eq!(None, secrets.get("a"));
    assert_eq!(None, secrets.get("a.c"));
    assert_eq!(Some("foo".to_string()), secrets.get("a.b"));
}

#[test]
fn replace() {
    let secrets = store_ab_foo();

    assert_eq!(
        "hello foo this is foo world!",
        secrets.replace("hello {{a.b}} this is {{a.b}} world!")
    );

    assert_eq!(
        "hello foo this is {{a.c}} world!",
        secrets.replace("hello {{a.b}} this is {{a.c}} world!")
    );

    assert_eq!(
        "hello foo this is {{  a.c  }} world!",
        secrets.replace("hello {{ a.b  }} this is {{  a.c  }} world!")
    );

    assert_eq!("foo {{ bar", secrets.replace("foo {{ bar"));

    assert_eq!("foo foo {{ bazz", secrets.replace("foo {{ a.b }} {{ bazz"));

    assert_eq!(
        "foo foo {{{{{}}foo",
        secrets.replace("foo {{ a.b }} {{{{{}}{{ a.b }}")
    );
}

#[test]
fn to_flat_map() {
    let secrets = SecretManager::new(Value::Mapping(vec![(
        "a".to_string(),
        Value::Mapping(vec![
            ("b".to_string(), Value::Value("foo".to_string())),
            ("c".to_string(), Value::Value("bar".to_string())),
        ]),
    )]));

    let res: HashMap<String, String> = secrets.to_flat_map().into_iter().collect();

    assert_eq!(
        HashMap::from([
            ("a.b".to_string(), "foo".to_string()),
            ("a.c".to_string(), "bar".to_string())
        ]),
        res
    );
}

#[test]
fn replace_with_empty_store_is_identity() {
    let secrets = SecretManager::empty();
    assert_eq!("plain text", secrets.replace("plain text"));
    assert_eq!("a {{ b.c }} d", secrets.replace("a {{ b.c }} d"));
    assert_eq!("", secrets.replace(""));
}

#[test]
fn get_on_empty_store() {
    let secrets = SecretManager::empty();
    assert_eq!(None, secrets.get("a"));
    assert_eq!(None, secrets.get(""));
}

#[test]
fn get_at_deeper_levels() {
    let secrets = SecretManager::new(Value::Mapping(vec![(
        "svc".to_string(),
        Value::Mapping(vec![("tok".to_string(), Value::Value("s3cr3t".to_string()))]),
    )]));
    assert_eq!(Some("s3cr3t".to_string()), secrets.get("svc.tok"));
    assert_eq!(None, secrets.get("svc.tok.deeper"));
    assert_eq!(None, secrets.get("svc"));
}

#[test]
fn unwrap_distinguishes_leaf_and_mapping() {
    assert_eq!(
        Some("x".to_string()),
        Value::Value("x".to_string()).unwrap()
    );
    assert_eq!(None, Value::Mapping(vec![]).unwrap());
}

#[test]
fn to_env_key_upcases_and_replaces_dots() {
    assert_eq!("SECRETS_A_B", minicd::secrets::to_env_key("a.b"));
    assert_eq!("SECRETS_SVC_TOK", minicd::secrets::to_env_key("svc.tok"));
    assert_eq!("SECRETS_", minicd::secrets::to_env_key(""));
}

#[test]
fn flat_map_keeps_declaration_order() {
    let secrets = SecretManager::new(Value::Mapping(vec![
        ("b".to_string(), Value::Value("2".to_string())),
        ("a".to_string(), Value::Value("1".to_string())),
    ]));
    let flat = secrets.to_flat_map();
    assert_eq!(
        vec![
            ("b".to_string(), "2".to_string()),
            ("a".to_string(), "1".to_string())
        ],
        flat
    );
}
