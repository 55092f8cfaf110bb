use wiki_extract::article::{Article, ArticleBody, DecodeOutcome};
use wiki_extract::filesink::{FileAction, FileSink};
use wiki_extract::pipeline::{surface_result, ExtractError, ExtractState};

fn parsed(name: &str) -> DecodeOutcome {
    let mut url = String::from("https://en.example.org/wiki/");
    url.push_str(name);
    DecodeOutcome::Parsed(Article {
        name: String::from(name),
        url,
        body: ArticleBody { html: format!("<p>{}</p>", name) },
    })
}

fn malformed() -> DecodeOutcome {
    DecodeOutcome::Malformed { message: String::from("expected value at line 7") }
}

fn one_file(names: &[&str]) -> Vec<DecodeOutcome> {
    let mut stream: Vec<DecodeOutcome> = names.iter().map(|n| parsed(n)).collect();
    stream.push(malformed());
    stream
}

#[test]
fn two_files_with_one_malformed_line_each() {
    // Two input files of three well-formed records and one malformed
    // line each, over an empty output directory.
    let mut sink = FileSink::new(None, false, false, false, String::from("out"));
    let mut state = ExtractState::new();
    let empty: Vec<String> = Vec::new();
    let first = sink.run_extract(&mut state, &one_file(&["Aa", "Ab", "Ba"]), &empty);
    let second = sink.run_extract(&mut state, &one_file(&["Ca", "Cb", "Da"]), &empty);
    assert_eq!(first.written.len() + second.written.len(), 6);
    assert_eq!(first.decode_errors + second.decode_errors, 2);
    assert_eq!(first.bad_urls + second.bad_urls, 0);
    assert!(!first.cancelled && !second.cancelled);
    assert_eq!(state.count, 6);
    assert_eq!(sink.skipped, 0);
    assert_eq!(first.written[0], "out/A/a/Aa.html");
    assert_eq!(first.written[2], "out/B/a/Ba.html");

    // Re-running with skip_existing over the now-populated directory:
    // no new writes, six skips.
    let mut existing = first.written.clone();
    existing.extend(second.written.iter().cloned());
    let mut sink2 = FileSink::new(None, true, false, false, String::from("out"));
    let mut state2 = ExtractState::new();
    let third = sink2.run_extract(&mut state2, &one_file(&["Aa", "Ab", "Ba"]), &existing);
    let fourth = sink2.run_extract(&mut state2, &one_file(&["Ca", "Cb", "Da"]), &existing);
    assert_eq!(third.written.len() + fourth.written.len(), 0);
    assert_eq!(sink2.skipped, 6);
    assert_eq!(third.decode_errors + fourth.decode_errors, 2);
    assert_eq!(state2.count, 6);
}

#[test]
fn limit_cancels_the_run_as_success() {
    let mut sink = FileSink::new(Some(2), false, false, false, String::from("out"));
    let mut state = ExtractState::new();
    let empty: Vec<String> = Vec::new();
    let stream = vec![parsed("Aa"), parsed("Ab"), parsed("Ba"), parsed("Bb"), parsed("Ca")];
    let summary = sink.run_extract(&mut state, &stream, &empty);
    assert!(summary.cancelled);
    assert_eq!(summary.written.len(), 2);
    // The record that trips the stop is counted but not written: the
    // counter overshoots the limit by at most that one record.
    assert_eq!(state.count, 3);
    // The run surfaces as success.
    if summary.cancelled {
        state.request_stop();
        state.provide_error(ExtractError::Cancelled);
    }
    let joins = vec![false];
    let r = surface_result(state.wait(&joins));
    assert!(r.is_ok());
}

#[test]
fn record_without_marker_is_warned_and_skipped() {
    let mut sink = FileSink::new(None, false, false, false, String::from("out"));
    let mut state = ExtractState::new();
    let empty: Vec<String> = Vec::new();
    let bad = DecodeOutcome::Parsed(Article {
        name: String::from("NoMarker"),
        url: String::from("https://en.example.org/w/NoMarker"),
        body: ArticleBody { html: String::from("<p>x</p>") },
    });
    let stream = vec![parsed("Aa"), bad];
    let summary = sink.run_extract(&mut state, &stream, &empty);
    assert_eq!(summary.written.len(), 1);
    assert_eq!(summary.bad_urls, 1);
    assert_eq!(state.count, 2);
}

#[test]
fn stop_flag_is_honoured_before_each_record() {
    let mut sink = FileSink::new(None, false, false, false, String::from("out"));
    let mut state = ExtractState::new();
    state.request_stop();
    let empty: Vec<String> = Vec::new();
    let summary = sink.run_extract(&mut state, &one_file(&["Aa"]), &empty);
    assert_eq!(summary.written.len(), 0);
    assert_eq!(summary.decode_errors, 0);
    assert_eq!(state.count, 0);
}

#[test]
fn flat_layout_without_nesting() {
    let mut sink = FileSink::new(None, false, true, false, String::from("out"));
    let mut state = ExtractState::new();
    let empty: Vec<String> = Vec::new();
    let summary = sink.run_extract(&mut state, &vec![parsed("Aa")], &empty);
    assert_eq!(summary.written[0], "out/Aa.html");
}

#[test]
fn hostile_key_characters_are_escaped_in_the_path() {
    let mut sink = FileSink::new(None, false, false, false, String::from("out"));
    let mut state = ExtractState::new();
    let empty: Vec<String> = Vec::new();
    let stream = vec![parsed("a:b")];
    let summary = sink.run_extract(&mut state, &stream, &empty);
    assert_eq!(summary.written[0], "out/a/_/a__colon__b.html");
}

#[test]
fn plan_names_the_destination_and_memoizes_the_directory() {
    let mut sink = FileSink::new(None, false, false, false, String::from("out"));
    let a = Article {
        name: String::from("Aa"),
        url: String::from("https://en.example.org/wiki/Aa"),
        body: ArticleBody { html: String::from("<p>a</p>") },
    };
    match sink.on_parse_plan(0, &a) {
        FileAction::Store { dir, path, mkdir_needed } => {
            assert_eq!(dir, "out/A/a");
            assert_eq!(path, "out/A/a/Aa.html");
            assert!(mkdir_needed);
        },
        _ => panic!("expected a store action"),
    }
    match sink.on_parse_plan(1, &a) {
        FileAction::Store { mkdir_needed, .. } => assert!(!mkdir_needed),
        _ => panic!("expected a store action"),
    }
}
