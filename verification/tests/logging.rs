use webserver::Logging;
use webserver::f;
use webserver::u64_to_string;

#[test]
fn test_f() {
    let message = f("src\\macros.rs", 44, "test test");
    assert_eq!(message, "(src\\macros.rs L44) test test");
}

#[test]
fn test_logging() {
    let logging = Logging::new();
    logging.info(f("src/logging.rs", 60, "test"));
    logging.error(f("src/logging.rs", 61, "test"));
    logging.debug(f("src/logging.rs", 62, "test"));
}

#[test]
fn decimal_rendering() {
    assert_eq!(u64_to_string(0), "0");
    assert_eq!(u64_to_string(9), "9");
    assert_eq!(u64_to_string(10), "10");
    assert_eq!(u64_to_string(907), "907");
    assert_eq!(u64_to_string(18446744073709551615), "18446744073709551615");
}

#[test]
fn info_strips_the_location_marker() {
    let logging = Logging::new();
    let line = logging.info(f("a.rs", 7, "hi"));
    assert_eq!(line, "\x1b[32mINFO:\x1b[0m  hi");
}

#[test]
fn verbose_info_keeps_the_location_marker() {
    let mut logging = Logging::new();
    logging.set_verbose(true);
    let line = logging.info(f("a.rs", 7, "hi"));
    assert_eq!(line, "\x1b[32mINFO:\x1b[0m  (a.rs L7) hi");
}

#[test]
fn error_strips_the_location_marker() {
    let logging = Logging::new();
    let line = logging.error(f("b.rs", 12, "boom"));
    assert_eq!(line, "\x1b[31mERROR:\x1b[0m  boom");
}

#[test]
fn debug_prints_only_when_verbose() {
    let mut logging = Logging::new();
    assert_eq!(logging.debug(String::from("quiet")), None);
    logging.set_verbose(true);
    assert_eq!(logging.debug(String::from("loud")), Some(String::from("\x1b[34mDEBUG:\x1b[0m loud")));
}

#[test]
fn message_without_marker_is_kept() {
    let logging = Logging::new();
    let line = logging.info(String::from("plain message"));
    assert_eq!(line, "\x1b[32mINFO:\x1b[0m plain message");
}
