use wiki_extract::article::{Article, ArticleBody, ParseEvent};
use wiki_extract::pipeline::ExtractError;
use wiki_extract::sqlsink::{BoundedChannel, SqlArticleMessage, SqlMessageListener};
use wiki_extract::sqlstore::{classify_insert, InsertOutcome, SqlInsertStep, SqlWriter};

fn event(name: &str, html: &str, count: u64) -> ParseEvent {
    let mut url = String::from("https://en.example.org/wiki/");
    url.push_str(name);
    ParseEvent {
        original_file: String::from("a.json"),
        count,
        article: Article {
            name: String::from(name),
            url,
            body: ArticleBody { html: String::from(html) },
        },
        verbose: false,
    }
}

fn message(name: &str, count: u64) -> SqlArticleMessage {
    let mut listener = SqlMessageListener::new(None);
    listener.on_parse(event(name, "<p>body</p>", count)).unwrap();
    listener.sent.pop().unwrap()
}

#[test]
fn on_parse_compresses_and_queues_the_record() {
    let mut listener = SqlMessageListener::new(None);
    listener.on_parse(event("Aa", "hello world", 0)).unwrap();
    assert_eq!(listener.sent.len(), 1);
    let m = &listener.sent[0];
    assert_eq!(m.name, "Aa");
    assert_eq!(m.url, "https://en.example.org/wiki/Aa");
    assert_eq!(m.count, 0);
    // The body really went through the compressor: it is a zstd frame
    // that decodes back to the original bytes.
    assert_ne!(m.compressed_html, b"hello world");
    let restored = zstd::decode_all(&m.compressed_html[..]).unwrap();
    assert_eq!(restored, b"hello world");
}

#[test]
fn on_parse_cancels_from_the_limit_on() {
    let mut listener = SqlMessageListener::new(Some(10));
    // At the limit the record is not processed: the cancellation
    // signal comes back and nothing is handed on.
    let r = listener.on_parse(event("Aa", "x", 10));
    assert!(matches!(r, Err(ExtractError::Cancelled)));
    assert_eq!(listener.sent.len(), 0);
    let r = listener.on_parse(event("Aa", "x", 11));
    assert!(matches!(r, Err(ExtractError::Cancelled)));
    assert_eq!(listener.sent.len(), 0);
    // Below the limit the record goes through.
    listener.on_parse(event("Aa", "x", 9)).unwrap();
    assert_eq!(listener.sent.len(), 1);
}

#[test]
fn bounded_channel_applies_backpressure() {
    let mut chan: BoundedChannel<SqlArticleMessage> = BoundedChannel::new(1);
    assert!(chan.try_send(message("Aa", 0)).is_ok());
    assert_eq!(chan.len(), 1);
    // The channel is full: the second message is refused and handed
    // back, so the producer must wait instead of buffering unboundedly.
    let refused = chan.try_send(message("Ab", 1));
    let back = refused.unwrap_err();
    assert_eq!(back.name, "Ab");
    assert_eq!(chan.len(), 1);
    let first = chan.recv().unwrap();
    assert_eq!(first.name, "Aa");
    assert!(chan.try_send(back).is_ok());
    assert_eq!(chan.len(), 1);
    assert_eq!(chan.recv().unwrap().name, "Ab");
    assert!(chan.recv().is_none());
}

#[test]
fn duplicate_name_is_stored_once_and_counted_as_skipped() {
    let mut writer = SqlWriter::new();
    writer.serialize_article(message("Aa", 0)).unwrap();
    writer.serialize_article(message("Aa", 1)).unwrap();
    assert_eq!(writer.store.articles.len(), 1);
    assert_eq!(writer.store.bodies.len(), 1);
    assert_eq!(writer.skipped, 1);
    assert_eq!(writer.store.articles[0].name, "Aa");
    assert_eq!(writer.store.articles[0].id, 0);
    assert_eq!(writer.store.bodies[0].article_id, 0);
}

#[test]
fn drain_consumes_every_message_once() {
    let mut writer = SqlWriter::new();
    let queue = vec![message("Aa", 0), message("Ab", 1), message("Aa", 2)];
    writer.drain(queue).unwrap();
    assert_eq!(writer.store.articles.len(), 2);
    assert_eq!(writer.store.bodies.len(), 2);
    assert_eq!(writer.skipped, 1);
    assert_eq!(writer.store.articles[0].name, "Aa");
    assert_eq!(writer.store.articles[1].name, "Ab");
    assert_eq!(writer.store.articles[1].id, 1);
}

#[test]
fn insert_outcomes_are_classified_exactly() {
    match classify_insert(InsertOutcome::Inserted { rowid: 7 }) {
        SqlInsertStep::ProceedBody { article_id } => assert_eq!(article_id, 7),
        _ => panic!("an inserted row gets its body"),
    }
    assert!(matches!(
        classify_insert(InsertOutcome::UniqueViolation),
        SqlInsertStep::SkipDuplicate
    ));
    match classify_insert(InsertOutcome::Failure { message: String::from("disk full") }) {
        SqlInsertStep::Abort { message } => assert_eq!(message, "disk full"),
        _ => panic!("any other failure aborts the run"),
    }
}
