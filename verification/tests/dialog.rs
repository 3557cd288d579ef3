use wind_portable::dialog::{ask, confirm, Answer};
use wind_portable::singleton::{acquire, Mutex};

#[test]
fn buttons() {
    assert!(confirm(1));
    assert!(!confirm(2));
    assert_eq!(ask(6), Answer::Yes);
    assert_eq!(ask(7), Answer::No);
    assert_eq!(ask(2), Answer::Cancel);
    assert_eq!(ask(0), Answer::Cancel);
}

#[test]
fn first_launcher() {
    assert!(acquire(Mutex::Created(0)));
    assert!(!acquire(Mutex::Created(183)));
    assert!(!acquire(Mutex::NotCreated));
}
