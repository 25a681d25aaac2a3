use wayeyes::args_helper::ExecutableArgs;

#[test]
fn from_iter_without_command() {
    let v = vec!["exe".into()];
    let parsed = ExecutableArgs::from_iter(false, v);

    assert_eq!(parsed.executable, Some("exe".into()));
    assert!(parsed.command.is_none());
    assert_eq!(parsed.remaining_args.len(), 0);
}

#[test]
fn from_iter_with_command_and_args() {
    let v = vec!["exe".into(), "cmd".into(), "arg1".into(), "arg2".into()];
    let parsed = ExecutableArgs::from_iter(true, v);

    assert_eq!(parsed.executable, Some("exe".into()));
    assert_eq!(parsed.command, Some("cmd".into()));
    assert_eq!(
        parsed.remaining_args,
        vec!["arg1".to_string(), "arg2".to_string()]
    );
}

#[test]
fn getters_and_boolean_checks() {
    let v = vec!["exe".to_string(), "cmd".to_string(), "arg1".to_string()];
    let parsed = ExecutableArgs::from_iter(true, v);

    assert!(parsed.has_executable());
    assert!(parsed.has_command());
    assert_eq!(parsed.args_count(), 1);
}

#[test]
fn from_iter_of_nothing() {
    let parsed = ExecutableArgs::from_iter(true, Vec::new());

    assert!(!parsed.has_executable());
    assert!(!parsed.has_command());
    assert_eq!(parsed.args_count(), 0);
}

#[test]
fn from_iter_with_command_wanted_but_absent() {
    let parsed = ExecutableArgs::from_iter(true, vec!["exe".to_string()]);

    assert_eq!(parsed.executable, Some("exe".to_string()));
    assert_eq!(parsed.command, None);
    assert!(parsed.remaining_args.is_empty());
}

#[test]
fn from_iter_without_command_keeps_the_rest() {
    let v = vec!["exe".to_string(), "cmd".to_string(), "arg1".to_string()];
    let parsed = ExecutableArgs::from_iter(false, v);

    assert_eq!(parsed.executable, Some("exe".to_string()));
    assert!(!parsed.has_command());
    assert_eq!(
        parsed.remaining_args,
        vec!["cmd".to_string(), "arg1".to_string()]
    );
    assert_eq!(parsed.args_count(), 2);
}

#[test]
fn from_iter_with_command_and_nothing_after() {
    let v = vec!["exe".to_string(), "cmd".to_string()];
    let parsed = ExecutableArgs::from_iter(true, v);

    assert_eq!(parsed.command, Some("cmd".to_string()));
    assert_eq!(parsed.args_count(), 0);
}
