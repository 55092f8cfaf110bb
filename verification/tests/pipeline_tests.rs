use wiki_extract::article::{Article, ArticleBody, ParseEvent};
use wiki_extract::pipeline::{surface_result, ExtractError, ExtractState};

fn article(name: &str, url: &str, html: &str) -> Article {
    Article {
        name: String::from(name),
        url: String::from(url),
        body: ArticleBody { html: String::from(html) },
    }
}

#[test]
fn counter_is_monotonic_and_gapless() {
    let mut state = ExtractState::new();
    assert_eq!(state.next_count(), 0);
    assert_eq!(state.next_count(), 1);
    assert_eq!(state.next_count(), 2);
    assert_eq!(state.count, 3);
}

#[test]
fn first_error_wins() {
    let mut state = ExtractState::new();
    state.provide_error(ExtractError::NotAFile { target: String::from("/a") });
    state.provide_error(ExtractError::UnexpectedPanic);
    let e = state.take_error().unwrap();
    assert!(matches!(e, ExtractError::NotAFile { .. }));
    assert!(state.take_error().is_none());
}

#[test]
fn wait_surfaces_the_latched_error() {
    let mut state = ExtractState::new();
    state.provide_error(ExtractError::FileIo {
        target: String::from("/in/a.json"),
        message: String::from("permission denied"),
    });
    let joins = vec![false, false, false];
    let e = state.wait(&joins).unwrap_err();
    assert!(matches!(e, ExtractError::FileIo { .. }));
}

#[test]
fn wait_reports_a_panicked_worker() {
    let mut state = ExtractState::new();
    let joins = vec![false, true, false];
    let e = state.wait(&joins).unwrap_err();
    assert!(matches!(e, ExtractError::UnexpectedPanic));
}

#[test]
fn wait_without_workers_or_errors_is_success() {
    let mut state = ExtractState::new();
    assert!(state.wait(&Vec::new()).is_ok());
    let joins = vec![false, false];
    assert!(state.wait(&joins).is_ok());
}

#[test]
fn cancellation_is_not_a_failure() {
    assert!(surface_result(Err(ExtractError::Cancelled)).is_ok());
    assert!(surface_result(Ok(())).is_ok());
    let e = surface_result(Err(ExtractError::UnexpectedPanic)).unwrap_err();
    assert!(matches!(e, ExtractError::UnexpectedPanic));
}

#[test]
fn error_messages_name_the_cause() {
    let e = ExtractError::FileIo {
        target: String::from("/in/a.json"),
        message: String::from("boom"),
    };
    assert_eq!(e.message(), "Fatal IO Error in /in/a.json: boom");
    let e = ExtractError::NotAFile { target: String::from("/in/a.json") };
    assert_eq!(e.message(), "Not a file: /in/a.json");
    assert_eq!(ExtractError::UnexpectedPanic.message(), "Unexpected panic in thread");
    let e = ExtractError::Listener { message: String::from("sink failed") };
    assert_eq!(e.message(), "sink failed");
    assert_eq!(ExtractError::Cancelled.message(), "Cancelled extract");
    assert!(ExtractError::Cancelled.is_cancellation());
    assert!(!ExtractError::UnexpectedPanic.is_cancellation());
}

#[test]
fn progress_reports_come_at_fixed_intervals() {
    let event = ParseEvent {
        original_file: String::from("a.json"),
        count: 500,
        article: article("A", "https://x/wiki/A", "<p>a</p>"),
        verbose: false,
    };
    assert_eq!(event.basic_report_progress(), (true, true));
    let event = ParseEvent { count: 101, ..event };
    assert_eq!(event.basic_report_progress(), (false, false));
    let event = ParseEvent { verbose: true, ..event };
    assert_eq!(event.basic_report_progress(), (false, true));
}
