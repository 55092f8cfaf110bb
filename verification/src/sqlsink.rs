//! The relational sink: records are compressed, fanned through a
//! bounded channel into a single writer, and stored under a unique
//! name — a duplicate name is counted as skipped, never stored twice
//! and never an error.
use vstd::prelude::*;

use crate::article::ParseEvent;
use crate::pipeline::ExtractError;

verus! {

/// How many records the channel between the parse workers and the
/// single writer holds at most; a full channel blocks the producers,
/// which is the intended backpressure.
pub const ARTICLE_CHANNEL_BOUND: usize = 50;

/// What compressing a body returns. The frame depends on the input
/// characters alone, so it is given a name rather than a page of
/// algorithm; nothing else is assumed of it.
pub uninterp spec fn compressed_of(s: Seq<char>) -> Seq<u8>;

/// Relies on zstd::stream::encode_all at a fixed, fast compression
/// level: it compresses the UTF-8 bytes of the body into one zstd
/// frame, a function of the input alone. Reading from an in-memory
/// slice at a fixed valid level has no input-dependent failure path,
/// so the call succeeds (allocation failure aside) and returns the
/// frame.
#[verifier::external_body]
fn compress_html(html: &str) -> (r: Result<Vec<u8>, String>)
    ensures
        r is Ok,
        r matches Ok(v) ==> v@ == compressed_of(html@),
{
    zstd::encode_all(html.as_bytes(), 1).map_err(|e| e.to_string())
}

/// One parsed record on its way to the single writer: ownership moves
/// into the channel and the writer consumes it exactly once.
pub struct SqlArticleMessage {
    /// The record's name, the store's unique key.
    pub name: String,
    /// The record's URL.
    pub url: String,
    /// The progress-counter value the record was taken at.
    pub count: u64,
    /// The record's body, compressed.
    pub compressed_html: Vec<u8>,
}

/// The mathematical value of one queued record.
pub struct MessageModel {
    pub name: Seq<char>,
    pub url: Seq<char>,
    pub count: u64,
    pub compressed_html: Seq<u8>,
}

impl View for SqlArticleMessage {
    type V = MessageModel;

    open spec fn view(&self) -> MessageModel {
        MessageModel {
            name: self.name@,
            url: self.url@,
            count: self.count,
            compressed_html: self.compressed_html@,
        }
    }
}

/// The parse-worker side of the relational sink: checks the record
/// limit, compresses the body, and hands the message on towards the
/// writer.
pub struct SqlMessageListener {
    /// The limit on the number of records to extract, if any.
    pub limit: Option<u64>,
    /// The messages handed on so far, in order.
    pub sent: Vec<SqlArticleMessage>,
}

impl SqlMessageListener {
    /// A fresh listener that has sent nothing.
    pub fn new(limit: Option<u64>) -> (r: SqlMessageListener)
        ensures
            r.limit == limit,
            r.sent@ =~= Seq::<SqlArticleMessage>::empty(),
    {
        SqlMessageListener { limit, sent: Vec::new() }
    }

    /// One well-formed record: from the limit on the run is cancelled;
    /// below it the body is compressed and exactly one message queued.
    pub fn on_parse(&mut self, event: ParseEvent) -> (r: Result<(), ExtractError>)
        ensures
            final(self).limit == old(self).limit,
            (match old(self).limit {
                Some(l) => event.count >= l,
                None => false,
            }) ==> (r matches Err(ExtractError::Cancelled) && final(self).sent == old(self).sent),
            !(match old(self).limit {
                Some(l) => event.count >= l,
                None => false,
            }) ==> {
                &&& r is Ok
                &&& {
                    let s = final(self).sent@;
                    &&& s.len() == old(self).sent@.len() + 1
                    &&& s.drop_last() == old(self).sent@
                    &&& s.last().name == event.article.name
                    &&& s.last().url == event.article.url
                    &&& s.last().count == event.count
                    &&& s.last().compressed_html@ == compressed_of(event.article.body.html@)
                }
            },
    {
        match self.limit {
            Some(l) => {
                if event.count >= l {
                    return Err(ExtractError::Cancelled);
                }
            },
            None => {},
        }
        match compress_html(event.article.body.html.as_str()) {
            Err(message) => Err(ExtractError::Listener { message }),
            Ok(compressed) => {
                let message = SqlArticleMessage {
                    name: event.article.name,
                    url: event.article.url,
                    count: event.count,
                    compressed_html: compressed,
                };
                let ghost oldsent = self.sent@;
                self.sent.push(message);
                proof {
                    assert(self.sent@.drop_last() =~= oldsent);
                }
                Ok(())
            },
        }
    }
}

/// What a bounded send leaves in the queue: the message when there is
/// room, nothing when the channel is full.
pub open spec fn send_model<T>(q: Seq<T>, cap: nat, t: T) -> Seq<T> {
    if q.len() < cap {
        q.push(t)
    } else {
        q
    }
}

/// The bounded channel between the parse workers and the single
/// writer, as one sequential value: the caller serializes access with
/// its own synchronization and blocks where this model refuses.
pub struct BoundedChannel<T> {
    queue: Vec<T>,
    cap: usize,
}

impl<T> BoundedChannel<T> {
    /// The messages queued, oldest first.
    pub closed spec fn view(&self) -> Seq<T> {
        self.queue@
    }

    /// How many messages the channel holds at most.
    pub closed spec fn capacity(&self) -> nat {
        self.cap as nat
    }

    /// An empty channel of the given capacity.
    pub fn new(cap: usize) -> (r: BoundedChannel<T>)
        ensures
            r@ =~= Seq::<T>::empty(),
            r.capacity() == cap,
    {
        BoundedChannel { queue: Vec::new(), cap }
    }

    /// How many messages are queued now.
    pub fn len(&self) -> (r: usize)
        ensures
            r == self@.len(),
    {
        self.queue.len()
    }

    /// Queues a message when there is room; a full channel returns it
    /// to the sender, who must wait — the backpressure that keeps a
    /// fast producer from outrunning the writer.
    pub fn try_send(&mut self, t: T) -> (r: Result<(), T>)
        ensures
            final(self).capacity() == old(self).capacity(),
            final(self)@ == send_model(old(self)@, old(self).capacity(), t),
            r is Ok <==> old(self)@.len() < old(self).capacity(),
            r matches Err(b) ==> b == t,
    {
        if self.queue.len() < self.cap {
            self.queue.push(t);
            Ok(())
        } else {
            Err(t)
        }
    }

    /// Takes the oldest message, or nothing from an empty channel.
    pub fn recv(&mut self) -> (r: Option<T>)
        ensures
            final(self).capacity() == old(self).capacity(),
            old(self)@.len() == 0 ==> r is None && final(self)@ == old(self)@,
            old(self)@.len() > 0 ==> (r matches Some(t) && t == old(self)@[0] && final(self)@
                == old(self)@.drop_first()),
    {
        if self.queue.len() == 0 {
            None
        } else {
            let t = self.queue.remove(0);
            proof {
                assert(self.queue@ =~= old(self).queue@.drop_first());
            }
            Some(t)
        }
    }
}

/// Backpressure: a send never grows the queue past the channel's
/// capacity — a full channel refuses the message, so memory stays
/// bounded however fast the producers run.
pub proof fn lemma_backpressure<T>(q: Seq<T>, cap: nat, t: T)
    requires
        q.len() <= cap,
    ensures
        send_model(q, cap, t).len() <= cap,
{
}

/// Whether a skip-count report is due at this total.
pub fn skip_report_due(skipped: u64) -> (r: bool)
    ensures
        r == (skipped % 500 == 0),
{
    skipped % 500 == 0
}

} // verus!
