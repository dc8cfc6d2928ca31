use logging::level::{Level, LogColor};
use logging::record::{LogLine, LogLineWrapper};

fn line(level: Level, color: LogColor, component: &str, message: &str) -> LogLine {
    LogLine { level, color, component: component.to_string(), message: message.to_string() }
}

#[test]
fn log_message_serialization() {
    let log_message = line(Level::Info, LogColor::Normal, "Portfolio", "This is a log message");

    let serialized_json = log_message.to_json();
    let deserialized_value: serde_json::Value = serde_json::from_str(&serialized_json).unwrap();

    assert_eq!(deserialized_value["level"], "INFO");
    assert_eq!(deserialized_value["component"], "Portfolio");
    assert_eq!(deserialized_value["message"], "This is a log message");
}

#[test]
fn json_rendering_is_exact() {
    let record = line(Level::Info, LogColor::Normal, "RiskEngine", "This is a test.");
    assert_eq!(
        record.to_json(),
        "{\"level\":\"INFO\",\"color\":\"Normal\",\"component\":\"RiskEngine\",\"message\":\"This is a test.\"}\n"
    );
}

#[test]
fn json_rendering_escapes_strings() {
    let record = line(Level::Error, LogColor::Red, "A\"B", "x\\y\nz\t\u{1}\u{1f}\u{8}\u{c}\r\u{7f}\u{e9}");
    assert_eq!(
        record.to_json(),
        "{\"level\":\"ERROR\",\"color\":\"Red\",\"component\":\"A\\\"B\",\"message\":\"x\\\\y\\nz\\t\\u0001\\u001f\\b\\f\\r\u{7f}\u{e9}\"}\n"
    );
}

#[test]
fn json_rendering_reads_back_as_the_same_values() {
    let message = "first \"quoted\"\nsecond\\ \u{0} \u{1b}[0m \u{2028} \u{1f600}";
    let record = line(Level::Debug, LogColor::Cyan, "Data\tEngine", message);
    let text = record.to_json();
    assert!(text.ends_with('\n'));
    assert_eq!(text.matches('\n').count(), 1);
    let value: serde_json::Value = serde_json::from_str(&text).unwrap();
    assert_eq!(value["level"], "DEBUG");
    assert_eq!(value["color"], "Cyan");
    assert_eq!(value["component"], "Data\tEngine");
    assert_eq!(value["message"], message);
    let keys: Vec<&String> = value.as_object().unwrap().keys().collect();
    assert_eq!(keys.len(), 4);
}

#[test]
fn json_rendering_keeps_the_key_order() {
    let text = line(Level::Warn, LogColor::Yellow, "c", "m").to_json();
    let level = text.find("\"level\"").unwrap();
    let color = text.find("\"color\"").unwrap();
    let component = text.find("\"component\"").unwrap();
    let message = text.find("\"message\"").unwrap();
    assert!(level < color && color < component && component < message);
}

#[test]
fn log_line_to_string_is_the_short_form() {
    let record = line(Level::Warn, LogColor::Normal, "Portfolio", "low balance");
    assert_eq!(record.to_string(), "[WARN] Portfolio: low balance");
}

#[test]
fn wrapper_plain_rendering() {
    let record = line(Level::Info, LogColor::Green, "RiskEngine", "This is a test.");
    let mut wrapper = LogLineWrapper::new(record, "TRADER-001".to_string(), 1_650_000_000_000_000);
    assert_eq!(
        wrapper.get_string(),
        "1970-01-20T02:20:00.000000000Z [INFO] TRADER-001.RiskEngine: This is a test.\n"
    );
    assert_eq!(
        wrapper.get_string(),
        "1970-01-20T02:20:00.000000000Z [INFO] TRADER-001.RiskEngine: This is a test.\n"
    );
    assert_eq!(wrapper.get_line().component, "RiskEngine");
}

#[test]
fn wrapper_colored_rendering() {
    let record = line(Level::Error, LogColor::Red, "ExecEngine", "rejected");
    let mut wrapper = LogLineWrapper::new(record, "T-1".to_string(), 0);
    assert_eq!(
        wrapper.get_colored(),
        "\x1b[1m1970-01-01T00:00:00.000000000Z\x1b[0m \x1b[1;31m[ERROR] T-1.ExecEngine: rejected\x1b[0m\n"
    );
    let record = line(Level::Debug, LogColor::Normal, "ExecEngine", "");
    let mut wrapper = LogLineWrapper::new(record, "T-1".to_string(), 0);
    assert_eq!(
        wrapper.get_colored(),
        "\x1b[1m1970-01-01T00:00:00.000000000Z\x1b[0m [DEBUG] T-1.ExecEngine: \x1b[0m\n"
    );
    assert_eq!(wrapper.get_string(), "1970-01-01T00:00:00.000000000Z [DEBUG] T-1.ExecEngine: \n");
}

#[test]
fn wrapper_json_rendering() {
    let record = line(Level::Info, LogColor::Normal, "RiskEngine", "This is a test.");
    let mut wrapper = LogLineWrapper::new(record, "TRADER-001".to_string(), 1_650_000_000_000_000);
    let expected = "{\"level\":\"INFO\",\"color\":\"Normal\",\"component\":\"RiskEngine\",\"message\":\"This is a test.\"}\n";
    assert_eq!(wrapper.get_json(), expected);
    assert_eq!(wrapper.get_json(), expected);
}

#[test]
fn renderings_end_with_one_line_feed() {
    for message in ["", "m", "two\nlines", "\\n"] {
        let record = line(Level::Info, LogColor::Blue, "C", message);
        let mut wrapper = LogLineWrapper::new(record, "T".to_string(), 5);
        for text in [
            wrapper.get_string().to_string(),
            wrapper.get_colored().to_string(),
            wrapper.get_json().to_string(),
        ] {
            assert!(text.ends_with('\n'));
            assert!(!text.ends_with("\n\n"));
        }
    }
}

#[test]
fn only_the_plain_rendering_follows_a_message_that_ends_a_line() {
    let record = line(Level::Info, LogColor::Blue, "C", "done\n");
    let mut wrapper = LogLineWrapper::new(record, "T".to_string(), 5);
    assert!(wrapper.get_string().ends_with("\n\n"));
    assert!(!wrapper.get_colored().ends_with("\n\n"));
    assert!(!wrapper.get_json().ends_with("\n\n"));
}
