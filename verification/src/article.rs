//! The data model: one decoded record, its mathematical value, and the
//! per-record event handed to a sink.
use vstd::prelude::*;

verus! {

/// One record as decoded from an input stream.
pub struct Article {
    /// The article's display name; the relational sink's unique key.
    pub name: String,
    /// The article's URL; the canonical key is derived from it.
    pub url: String,
    /// The article's body.
    pub body: ArticleBody,
}

/// The body of a record.
pub struct ArticleBody {
    /// The raw page text the sinks persist.
    pub html: String,
}

/// The mathematical value of a record.
pub struct ArticleModel {
    pub name: Seq<char>,
    pub url: Seq<char>,
    pub html: Seq<char>,
}

impl View for Article {
    type V = ArticleModel;

    open spec fn view(&self) -> ArticleModel {
        ArticleModel { name: self.name@, url: self.url@, html: self.body.html@ }
    }
}

/// The name-and-URL projection of a record that the index derivative
/// emits.
pub struct ArticleMetadata {
    pub name: String,
    pub url: String,
}

/// One element of a decoded stream: a well-formed record, or the
/// message left by a record that would not decode. A malformed element
/// never terminates the stream.
pub enum DecodeOutcome {
    /// A record that decoded.
    Parsed(Article),
    /// A record that did not; the stream goes on after it.
    Malformed {
        /// What the decoder said.
        message: String,
    },
}

/// The mathematical value of one stream element.
pub enum DecodeModel {
    Parsed(ArticleModel),
    Malformed,
}

impl View for DecodeOutcome {
    type V = DecodeModel;

    open spec fn view(&self) -> DecodeModel {
        match self {
            DecodeOutcome::Parsed(a) => DecodeModel::Parsed(a@),
            DecodeOutcome::Malformed { .. } => DecodeModel::Malformed,
        }
    }
}

/// The per-record event a sink's `on_parse` receives.
pub struct ParseEvent {
    /// The input file the record came from.
    pub original_file: String,
    /// The value of the shared progress counter when the record was
    /// taken, before this record was counted.
    pub count: u64,
    /// The record itself.
    pub article: Article,
    /// Whether every extracted record is reported, not only the
    /// periodic milestones.
    pub verbose: bool,
}

impl ParseEvent {
    /// Which progress lines are due for this record: the first holds
    /// at every hundredth record, the second at every five-hundredth
    /// or always under verbose output.
    pub fn basic_report_progress(&self) -> (r: (bool, bool))
        ensures
            r.0 == (self.count % 100 == 0),
            r.1 == (self.count % 500 == 0 || self.verbose),
    {
        (self.count % 100 == 0, self.count % 500 == 0 || self.verbose)
    }
}

} // verus!
