use vgrep::logging::{choose_log_filter, requested_log_level, LogFilterSource};

#[test]
fn log_level_defaults_to_info() {
    assert_eq!(requested_log_level(None), "info");
    assert_eq!(requested_log_level(Some("debug".to_string())), "debug");
}

#[test]
fn log_filter_falls_back_in_order() {
    assert_eq!(choose_log_filter(true, true), LogFilterSource::Environment);
    assert_eq!(choose_log_filter(true, false), LogFilterSource::Environment);
    assert_eq!(choose_log_filter(false, true), LogFilterSource::Requested);
    assert_eq!(choose_log_filter(false, false), LogFilterSource::Info);
}
