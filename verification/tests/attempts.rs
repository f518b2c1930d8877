use async_net::attempt::{no_address_message, Action, AttemptError, Attempts, Event, Purpose};
use async_net::incoming::incoming_item;

#[test]
fn first_success_ends_the_run() {
    let mut attempts: Attempts<&str> = Attempts::new();
    assert!(!attempts.is_finished());
    let a = attempts.step(Event::<u16, &str>::Attempted(Err("refused")));
    assert!(matches!(a, Action::Continue));
    assert!(!attempts.is_finished());
    let a = attempts.step(Event::Attempted(Ok(80u16)));
    assert!(matches!(a, Action::Finish(Ok(80))));
    assert!(attempts.is_finished());
}

#[test]
fn first_address_that_works_is_kept() {
    let mut attempts: Attempts<&str> = Attempts::new();
    let a = attempts.step(Event::Attempted(Ok(8080u16)));
    assert!(matches!(a, Action::Finish(Ok(8080))));
    assert!(attempts.is_finished());
}

#[test]
fn all_failed_gives_last_error() {
    let mut attempts: Attempts<&str> = Attempts::new();
    let a = attempts.step(Event::<u16, &str>::Attempted(Err("first")));
    assert!(matches!(a, Action::Continue));
    let a = attempts.step(Event::<u16, &str>::Attempted(Err("second")));
    assert!(matches!(a, Action::Continue));
    let a = attempts.step(Event::<u16, &str>::Exhausted);
    assert!(matches!(a, Action::Finish(Err(AttemptError::Last("second")))));
    assert!(attempts.is_finished());
}

#[test]
fn single_failure_gives_its_error() {
    let mut attempts: Attempts<String> = Attempts::new();
    let a = attempts.step(Event::<u16, String>::Attempted(Err("in use".to_string())));
    assert!(matches!(a, Action::Continue));
    match attempts.step(Event::<u16, String>::Exhausted) {
        Action::Finish(Err(AttemptError::Last(e))) => assert_eq!(e, "in use"),
        _ => panic!("expected the last error"),
    }
}

#[test]
fn no_address_gives_no_addresses() {
    let mut attempts: Attempts<&str> = Attempts::new();
    let a = attempts.step(Event::<u16, &str>::Exhausted);
    assert!(matches!(a, Action::Finish(Err(AttemptError::NoAddresses))));
    assert!(attempts.is_finished());
}

#[test]
fn no_address_messages() {
    assert_eq!(no_address_message(Purpose::Bind), "could not resolve to any of the addresses");
    assert_eq!(no_address_message(Purpose::Connect), "could not connect to any of the addresses");
}

#[test]
fn incoming_drops_peer_address() {
    let item = incoming_item::<u32, &str, &str>(Ok((7, "127.0.0.1:9000")));
    assert_eq!(item, Some(Ok(7)));
}

#[test]
fn incoming_passes_error_and_never_ends() {
    let item = incoming_item::<u32, &str, &str>(Err("too many open files"));
    assert_eq!(item, Some(Err("too many open files")));
}
