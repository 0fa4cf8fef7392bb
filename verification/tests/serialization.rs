use ncspot::serialization::{on_load_result, on_lookup, LoadOutcome, LookupStep};

#[test]
fn value_read_is_handed_back() {
    let out = on_load_result("/tmp/config.toml", Ok::<u32, String>(7), true);
    assert!(matches!(out, LoadOutcome::Finish(Ok(7))));
    let out = on_load_result("/tmp/config.toml", Ok::<u32, String>(7), false);
    assert!(matches!(out, LoadOutcome::Finish(Ok(7))));
}

#[test]
fn unreadable_file_is_overwritten_when_asked() {
    let out = on_load_result("/tmp/state.cbor", Err::<u32, String>("bad".to_string()), true);
    assert!(matches!(out, LoadOutcome::WriteDefault));
}

#[test]
fn unreadable_file_error_names_the_path() {
    let out = on_load_result("/tmp/config.toml", Err::<u32, String>("expected `=`".to_string()), false);
    match out {
        LoadOutcome::Finish(Err(m)) => assert_eq!(m, "Unable to parse /tmp/config.toml: expected `=`"),
        _ => panic!("expected an error"),
    }
}

#[test]
fn missing_file_gets_the_default_written() {
    assert_eq!(on_lookup(false), LookupStep::WriteDefault);
    assert_eq!(on_lookup(true), LookupStep::ReadFile);
}
