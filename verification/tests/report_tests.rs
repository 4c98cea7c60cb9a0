use human_panic::Method;
use human_panic::Report;
use human_panic::fresh_report_file_name;
use human_panic::report_file_name;

fn parsed(report: &Report) -> toml::Table {
    let text = report.serialize().expect("serialize always yields text");
    text.parse::<toml::Table>().expect("serialized report is well-formed")
}

fn field<'a>(table: &'a toml::Table, key: &str) -> &'a str {
    table.get(key).expect("field present").as_str().expect("field is text")
}

#[test]
fn round_trip_plain_fields() {
    let report = Report::new(
        "app",
        "0.1.0",
        Method::Panic,
        "something broke".to_string(),
        "a bug".to_string(),
    );
    let table = parsed(&report);
    assert_eq!(field(&table, "name"), "app");
    assert_eq!(field(&table, "crate_version"), "0.1.0");
    assert_eq!(field(&table, "explanation"), "something broke");
    assert_eq!(field(&table, "cause"), "a bug");
    assert_eq!(field(&table, "method"), "Panic");
    assert_eq!(field(&table, "operating_system"), report.operating_system().as_str());
    assert_eq!(field(&table, "backtrace"), report.backtrace().as_str());
}

#[test]
fn round_trip_arbitrary_unicode() {
    let name = "приложение 💥 アプリ";
    let explanation = "control \u{1} and delete \u{7f} survive".to_string();
    let cause = "quotes \" and backslashes \\ and more \"\\\"".to_string();
    let report = Report::new(name, "2.0.0-β", Method::Panic, explanation.clone(), cause.clone());
    let table = parsed(&report);
    assert_eq!(field(&table, "name"), name);
    assert_eq!(field(&table, "crate_version"), "2.0.0-β");
    assert_eq!(field(&table, "explanation"), explanation.as_str());
    assert_eq!(field(&table, "cause"), cause.as_str());
}

#[test]
fn serialize_never_fails_on_empty_and_special() {
    let empty = Report::new("", "", Method::Panic, String::new(), String::new());
    assert!(empty.serialize().is_some());
    let table = parsed(&empty);
    assert_eq!(field(&table, "name"), "");
    assert_eq!(field(&table, "explanation"), "");
    assert_eq!(field(&table, "cause"), "");

    let spiky = Report::new(
        "\"\\\"",
        "\t",
        Method::Panic,
        "\r\n\u{0}\u{1f}".to_string(),
        "\u{8}\u{c}".to_string(),
    );
    assert!(spiky.serialize().is_some());
    let table = parsed(&spiky);
    assert_eq!(field(&table, "name"), "\"\\\"");
    assert_eq!(field(&table, "crate_version"), "\t");
    assert_eq!(field(&table, "explanation"), "\r\n\u{0}\u{1f}");
    assert_eq!(field(&table, "cause"), "\u{8}\u{c}");
}

#[test]
fn newlines_and_quotes_round_trip() {
    let explanation = "line one\nhe said \"no\"\r\nline three".to_string();
    let cause = "a \"quoted\"\ncause".to_string();
    let report = Report::new("app", "1.0", Method::Panic, explanation.clone(), cause.clone());
    let table = parsed(&report);
    assert_eq!(field(&table, "explanation"), explanation.as_str());
    assert_eq!(field(&table, "cause"), cause.as_str());
}

#[test]
fn scenario_myapp_report() {
    let report = Report::new(
        "myapp",
        "1.2.3",
        Method::Panic,
        "index out of bounds".to_string(),
        "index 5, len 3".to_string(),
    );
    assert!(matches!(report.method(), Method::Panic));
    let table = parsed(&report);
    assert_eq!(field(&table, "name"), "myapp");
    assert_eq!(field(&table, "crate_version"), "1.2.3");
    assert_eq!(field(&table, "method"), "Panic");
    assert_eq!(field(&table, "cause"), "index 5, len 3");
    assert!(!field(&table, "backtrace").is_empty());
}

#[test]
fn operating_system_label_has_unix_prefix() {
    let report = Report::new("app", "1.0", Method::Panic, String::new(), String::new());
    assert!(report.operating_system().starts_with("unix:"));
    let table = parsed(&report);
    assert!(field(&table, "operating_system").starts_with("unix:"));
}

#[test]
fn exact_escaped_lines() {
    let report = Report::new(
        "my \"app\"",
        "1.0",
        Method::Panic,
        "a\\b\nc".to_string(),
        "bell\u{7}end".to_string(),
    );
    let text = report.serialize().unwrap();
    assert!(text.contains("name = \"my \\\"app\\\"\"\n"));
    assert!(text.contains("explanation = \"a\\\\b\\nc\"\n"));
    assert!(text.contains("cause = \"bell\\u0007end\"\n"));
    assert!(text.contains("method = \"Panic\"\n"));
}

#[test]
fn file_names_are_fresh_and_well_formed() {
    let first = fresh_report_file_name();
    let second = fresh_report_file_name();
    assert_ne!(first, second);
    assert!(first.starts_with("report-"));
    assert!(first.ends_with(".toml"));
    assert_eq!(first.chars().count(), 48);
    assert_eq!(report_file_name("abc"), "report-abc.toml");
}
