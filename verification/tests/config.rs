use r2d2::{Config, NewPoolError};

fn sized(initial_size: usize, max_size: usize) -> Config {
    Config {
        initial_size,
        max_size,
        ..Default::default()
    }
}

#[test]
fn default_values() {
    let config: Config = Default::default();
    assert_eq!(config.initial_size, 3);
    assert_eq!(config.max_size, 15);
    assert_eq!(config.acquire_increment, 3);
    assert_eq!(config.helper_tasks, 3);
    assert!(!config.test_on_check_out);
}

#[test]
fn default_is_valid() {
    let config: Config = Default::default();
    assert_eq!(config.validate(), Ok(()));
}

#[test]
fn initial_size_may_equal_max_size() {
    assert_eq!(sized(5, 5).validate(), Ok(()));
    assert_eq!(sized(0, 1).validate(), Ok(()));
}

#[test]
fn initial_size_above_max_size_is_refused() {
    assert_eq!(
        sized(6, 5).validate(),
        Err("initial_size must not be greater than max_size")
    );
}

#[test]
fn zero_max_size_is_refused() {
    assert_eq!(sized(0, 0).validate(), Err("max_size must be positive"));
}

#[test]
fn zero_acquire_increment_is_refused() {
    let config = Config {
        acquire_increment: 0,
        ..Default::default()
    };
    assert_eq!(config.validate(), Err("acquire_increment must be positive"));
}

#[test]
fn zero_helper_tasks_is_refused() {
    let config = Config {
        helper_tasks: 0,
        ..Default::default()
    };
    assert_eq!(config.validate(), Err("helper_tasks must be positive"));
}

#[test]
fn first_fault_is_reported() {
    // Too large an initial size comes before a zero maximum.
    assert_eq!(
        sized(1, 0).validate(),
        Err("initial_size must not be greater than max_size")
    );
    // A zero maximum comes before the two counts.
    let config = Config {
        initial_size: 0,
        max_size: 0,
        acquire_increment: 0,
        helper_tasks: 0,
        test_on_check_out: true,
    };
    assert_eq!(config.validate(), Err("max_size must be positive"));
    // Of the two counts the increment comes first.
    let config = Config {
        acquire_increment: 0,
        helper_tasks: 0,
        ..Default::default()
    };
    assert_eq!(config.validate(), Err("acquire_increment must be positive"));
}

#[test]
fn test_on_check_out_does_not_matter_for_validity() {
    let config = Config {
        test_on_check_out: true,
        ..Default::default()
    };
    assert_eq!(config.validate(), Ok(()));
}

#[test]
fn message_of_invalid_config() {
    let err: NewPoolError<String> = NewPoolError::InvalidConfig("max_size must be positive");
    assert_eq!(err.message(), "Invalid config: max_size must be positive");
}

#[test]
fn message_of_connection_error() {
    let err = NewPoolError::ConnectionError(String::from("host unreachable"));
    assert_eq!(
        err.message(),
        "Unable to create connections: host unreachable"
    );
    let err = NewPoolError::ConnectionError(404u32);
    assert_eq!(err.message(), "Unable to create connections: 404");
}
