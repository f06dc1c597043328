use sveltekit_axum::demo::hello;
use sveltekit_axum::runtime::{op_log, LogRecord};

#[test]
fn op_log_maps_levels_and_trims() {
    assert!(matches!(op_log("debug line\n", 0), LogRecord::Debug("debug line")));
    assert!(matches!(op_log("info", 1), LogRecord::Info("info")));
    assert!(matches!(op_log("careful \t", 2), LogRecord::Warn("careful")));
    assert!(matches!(op_log("boom\r\n", 3), LogRecord::Error("boom")));
}

#[test]
fn op_log_invalid_level() {
    assert!(matches!(op_log("x", 4), LogRecord::InvalidLevel));
    assert!(matches!(op_log("x", -1), LogRecord::InvalidLevel));
}

#[test]
fn hello_appends_is_cool() {
    assert_eq!(hello("Rust".to_string()), "Rust is cool");
    assert_eq!(hello(String::new()), " is cool");
}
