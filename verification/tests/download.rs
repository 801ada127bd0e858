use psvg::bytes::basename;
use psvg::download::{plan_downloads, svg_url};
use psvg::report::FailureLog;
use psvg::{Cli, Commands, Dialogue};

fn b(s: &str) -> Vec<u8> {
    s.as_bytes().to_vec()
}

fn s(v: Vec<u8>) -> String {
    String::from_utf8(v).unwrap()
}

#[test]
fn url_is_base_plus_path() {
    let url = svg_url(&b("icons/arrow.svg"));
    assert_eq!(
        s(url),
        "https://lf-scm-us.larksuitecdn.com/whiteboard_icon_source/icons/arrow.svg"
    );
}

#[test]
fn file_name_is_last_segment() {
    assert_eq!(s(basename(&b("icons/set/a.svg"))), "a.svg");
    assert_eq!(s(basename(&b("plain.svg"))), "plain.svg");
    assert_eq!(s(basename(&b("trailing/"))), "");
}

#[test]
fn plans_follow_manifest_order() {
    let paths = vec![b("a/one.svg"), b("two.svg"), b("deep/er/three.svg")];
    let plans = plan_downloads(&paths);
    assert_eq!(plans.len(), 3);
    assert_eq!(
        s(plans[0].url.clone()),
        "https://lf-scm-us.larksuitecdn.com/whiteboard_icon_source/a/one.svg"
    );
    assert_eq!(s(plans[0].file_name.clone()), "one.svg");
    assert_eq!(s(plans[1].file_name.clone()), "two.svg");
    assert_eq!(s(plans[2].file_name.clone()), "three.svg");
}

#[test]
fn rerunning_the_same_manifest_gives_the_same_plan() {
    let paths = vec![b("a/one.svg"), b("two.svg")];
    let first = plan_downloads(&paths);
    let second = plan_downloads(&paths);
    assert_eq!(first.len(), second.len());
    for (p, q) in first.iter().zip(second.iter()) {
        assert_eq!(p.url, q.url);
        assert_eq!(p.file_name, q.file_name);
    }
}

#[test]
fn empty_log_reports_an_empty_array() {
    let log = FailureLog::new();
    assert_eq!(s(log.report()), "[]");
}

#[test]
fn one_failure_is_reported_in_full() {
    let mut log = FailureLog::new();
    log.record(b("icons/a.svg"), b("connection refused"));
    let expected = "[\n  {\n    \"path\": \"icons/a.svg\",\n    \"error\": \"connection refused\"\n  }\n]";
    assert_eq!(s(log.report()), expected);
}

#[test]
fn failures_keep_their_recorded_order() {
    let mut log = FailureLog::new();
    log.record(b("one.svg"), b("timed out"));
    log.record(b("two.svg"), b("status 404"));
    let expected = "[\n  {\n    \"path\": \"one.svg\",\n    \"error\": \"timed out\"\n  },\n  {\n    \"path\": \"two.svg\",\n    \"error\": \"status 404\"\n  }\n]";
    assert_eq!(s(log.report()), expected);
}

#[test]
fn report_escapes_special_bytes() {
    let mut log = FailureLog::new();
    log.record(b("a\"b\\c.svg"), b("line one\nline two\ttab\u{1}"));
    let expected = "[\n  {\n    \"path\": \"a\\\"b\\\\c.svg\",\n    \"error\": \"line one\\nline two\\ttab\\u0001\"\n  }\n]";
    assert_eq!(s(log.report()), expected);
}

#[test]
fn only_json_files_are_offered() {
    let candidates = vec![
        b("a/icons.json"),
        b("readme.txt"),
        b(".json"),
        b("c/.json"),
        b("notes.json"),
        b("icons.json.bak"),
    ];
    let found = Dialogue::find_json_files(&candidates);
    let found: Vec<String> = found.into_iter().map(s).collect();
    assert_eq!(found, vec!["a/icons.json".to_string(), "notes.json".to_string()]);
}

#[test]
fn init_carries_the_answers_over() {
    let cli = Cli { command: Commands::Choice };
    let d = cli.init("icons.json".to_string(), "downloads".to_string());
    assert_eq!(d.file, "icons.json");
    assert_eq!(d.dir, "downloads");
}
