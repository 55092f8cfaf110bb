//! The relational store, as the single writer sees it: an article
//! table keyed by a unique name and a body table referencing it. The
//! writer owns the store exclusively; a duplicate name is counted as
//! skipped and never stored twice.
use vstd::prelude::*;

use crate::pipeline::ExtractError;
use crate::sqlsink::{MessageModel, SqlArticleMessage};

verus! {

/// One row of the article table.
pub struct SqlRow {
    /// The surrogate key the body row references.
    pub id: i64,
    /// The unique name.
    pub name: String,
    /// The record's URL.
    pub url: String,
}

/// One row of the body table.
pub struct SqlBodyRow {
    /// The article row this body belongs to.
    pub article_id: i64,
    /// The compressed body.
    pub compressed_html: Vec<u8>,
}

/// The mathematical value of an article row.
pub struct RowModel {
    pub id: int,
    pub name: Seq<char>,
    pub url: Seq<char>,
}

/// The mathematical value of a body row.
pub struct BodyModel {
    pub article_id: int,
    pub compressed_html: Seq<u8>,
}

impl View for SqlRow {
    type V = RowModel;

    open spec fn view(&self) -> RowModel {
        RowModel { id: self.id as int, name: self.name@, url: self.url@ }
    }
}

impl View for SqlBodyRow {
    type V = BodyModel;

    open spec fn view(&self) -> BodyModel {
        BodyModel { article_id: self.article_id as int, compressed_html: self.compressed_html@ }
    }
}

/// The two tables and the next surrogate key.
pub struct SqlStore {
    /// The article table.
    pub articles: Vec<SqlRow>,
    /// The body table.
    pub bodies: Vec<SqlBodyRow>,
    /// The next surrogate key to assign.
    pub next_id: i64,
}

/// The mathematical value of the store.
pub struct StoreModel {
    pub articles: Seq<RowModel>,
    pub bodies: Seq<BodyModel>,
    pub next_id: int,
}

impl View for SqlStore {
    type V = StoreModel;

    open spec fn view(&self) -> StoreModel {
        StoreModel {
            articles: self.articles@.map_values(|r: SqlRow| r@),
            bodies: self.bodies@.map_values(|b: SqlBodyRow| b@),
            next_id: self.next_id as int,
        }
    }
}

/// Whether a name is already stored.
pub open spec fn contains_name(articles: Seq<RowModel>, name: Seq<char>) -> bool {
    exists|i: int| 0 <= i < articles.len() && articles[i].name == name
}

/// How many rows carry a name.
pub open spec fn name_count(articles: Seq<RowModel>, name: Seq<char>) -> nat {
    articles.filter(|r: RowModel| r.name == name).len()
}

/// The store's invariant: names are unique, every id is below the next
/// one to assign, and the body table runs in lockstep with the article
/// table, each body referencing its article's id.
pub open spec fn store_wf(s: StoreModel) -> bool {
    &&& forall|i: int, j: int|
        0 <= i < j < s.articles.len() ==> s.articles[i].name != s.articles[j].name
    &&& forall|i: int| 0 <= i < s.articles.len() ==> (#[trigger] s.articles[i]).id < s.next_id
    &&& s.bodies.len() == s.articles.len()
    &&& forall|i: int|
        0 <= i < s.bodies.len() ==> (#[trigger] s.bodies[i]).article_id == s.articles[i].id
}

/// The single writer of the relational sink: the store it owns
/// exclusively and its skip count.
pub struct SqlWriter {
    /// The store.
    pub store: SqlStore,
    /// How many records were skipped as already ingested.
    pub skipped: u64,
}

/// The mathematical value of the writer.
pub struct WriterModel {
    pub store: StoreModel,
    pub skipped: int,
}

impl View for SqlWriter {
    type V = WriterModel;

    open spec fn view(&self) -> WriterModel {
        WriterModel { store: self.store@, skipped: self.skipped as int }
    }
}

/// What one write does to the store: a known name only counts a skip;
/// a new name appends one article row and its body row under a fresh
/// id.
pub open spec fn serialize_model(w: WriterModel, m: MessageModel) -> WriterModel {
    if contains_name(w.store.articles, m.name) {
        WriterModel { skipped: w.skipped + 1, ..w }
    } else {
        WriterModel {
            store: StoreModel {
                articles: w.store.articles.push(
                    RowModel { id: w.store.next_id, name: m.name, url: m.url },
                ),
                bodies: w.store.bodies.push(
                    BodyModel { article_id: w.store.next_id, compressed_html: m.compressed_html },
                ),
                next_id: w.store.next_id + 1,
            },
            skipped: w.skipped,
        }
    }
}

impl SqlWriter {
    /// The writer's invariant.
    pub open spec fn wf(&self) -> bool {
        store_wf(self@.store)
    }

    /// A fresh writer over an empty store.
    pub fn new() -> (r: SqlWriter)
        ensures
            r.wf(),
            r@.store.articles =~= Seq::<RowModel>::empty(),
            r@.store.bodies =~= Seq::<BodyModel>::empty(),
            r@.store.next_id == 0,
            r@.skipped == 0,
    {
        let r = SqlWriter {
            store: SqlStore { articles: Vec::new(), bodies: Vec::new(), next_id: 0 },
            skipped: 0,
        };
        proof {
            assert(r@.store.articles =~= Seq::<RowModel>::empty());
            assert(r@.store.bodies =~= Seq::<BodyModel>::empty());
        }
        r
    }

    /// Whether a name is already stored.
    fn knows_name(&self, name: &String) -> (r: bool)
        ensures
            r == contains_name(self@.store.articles, name@),
    {
        let n = self.store.articles.len();
        let mut i: usize = 0;
        while i < n
            invariant
                0 <= i <= n,
                n == self.store.articles@.len(),
                forall|j: int| 0 <= j < i ==> self@.store.articles[j].name != name@,
            decreases n - i,
        {
            if self.store.articles[i].name == *name {
                assert(self@.store.articles[i as int].name == name@);
                return true;
            }
            i = i + 1;
        }
        false
    }

    /// Persists one message inside one transaction: an already-stored
    /// name is counted as skipped and nothing changes; a new name
    /// stores one article row and its compressed body. Never an error.
    pub fn serialize_article(&mut self, message: SqlArticleMessage) -> (r: Result<
        (),
        ExtractError,
    >)
        requires
            old(self).wf(),
            old(self).skipped < u64::MAX,
            old(self).store.next_id < i64::MAX,
        ensures
            final(self).wf(),
            final(self)@ == serialize_model(old(self)@, message@),
            r is Ok,
    {
        let known = self.knows_name(&message.name);
        if known {
            self.skipped = self.skipped + 1;
            return Ok(());
        }
        let id = self.store.next_id;
        let ghost oldarticles = self.store.articles@;
        let ghost oldbodies = self.store.bodies@;
        self.store.articles.push(SqlRow { id, name: message.name, url: message.url });
        self.store.bodies.push(
            SqlBodyRow { article_id: id, compressed_html: message.compressed_html },
        );
        self.store.next_id = id + 1;
        proof {
            let f = |r: SqlRow| r@;
            let g = |b: SqlBodyRow| b@;
            assert(self.store.articles@.map_values(f) =~= oldarticles.map_values(f).push(
                RowModel { id: id as int, name: message.name@, url: message.url@ },
            ));
            assert(self.store.bodies@.map_values(g) =~= oldbodies.map_values(g).push(
                BodyModel { article_id: id as int, compressed_html: message.compressed_html@ },
            ));
            assert(self@ == serialize_model(old(self)@, message@));
            let s = self@.store;
            let olds = old(self)@.store;
            assert forall|i: int, j: int|
                0 <= i < j < s.articles.len() implies s.articles[i].name != s.articles[j].name by {
                if j < olds.articles.len() {
                } else {
                    assert(s.articles[j].name == message.name@);
                    assert(!contains_name(olds.articles, message.name@));
                    assert(s.articles[i] == olds.articles[i]);
                }
            }
        }
        Ok(())
    }
}

/// What draining a whole queue does to the store: each message is
/// consumed exactly once, in order.
pub open spec fn drain_model(w: WriterModel, msgs: Seq<MessageModel>) -> WriterModel
    decreases msgs.len(),
{
    if msgs.len() == 0 {
        w
    } else {
        serialize_model(drain_model(w, msgs.drop_last()), msgs.last())
    }
}

impl SqlWriter {
    /// The writer's receive loop: consumes the queued messages in
    /// order, each exactly once, persisting each as one transaction.
    pub fn drain(&mut self, messages: Vec<SqlArticleMessage>) -> (r: Result<(), ExtractError>)
        requires
            old(self).wf(),
            old(self).skipped + messages@.len() <= u64::MAX,
            old(self).store.next_id + messages@.len() <= i64::MAX,
        ensures
            final(self).wf(),
            final(self)@ == drain_model(
                old(self)@,
                messages@.map_values(|m: SqlArticleMessage| m@),
            ),
            r is Ok,
    {
        let ghost mmodels = messages@.map_values(|m: SqlArticleMessage| m@);
        let total = messages.len();
        let mut queue = messages;
        let mut i: usize = 0;
        proof {
            assert(queue@.map_values(|m: SqlArticleMessage| m@) =~= mmodels.skip(0));
        }
        while i < total
            invariant
                0 <= i <= total,
                total == mmodels.len(),
                queue@.len() == total - i,
                queue@.map_values(|m: SqlArticleMessage| m@) == mmodels.skip(i as int),
                self@ == drain_model(old(self)@, mmodels.take(i as int)),
                self.wf(),
                self.skipped <= old(self).skipped + i,
                self.store.next_id <= old(self).store.next_id + i,
                old(self).skipped + total <= u64::MAX,
                old(self).store.next_id + total <= i64::MAX,
            decreases total - i,
        {
            let m = queue.remove(0);
            proof {
                assert(queue@.map_values(|m: SqlArticleMessage| m@) =~= mmodels.skip(
                    i as int,
                ).drop_first());
                assert(mmodels.skip(i as int).drop_first() =~= mmodels.skip(i + 1));
                assert(m@ == mmodels.skip(i as int)[0]);
                assert(mmodels.skip(i as int)[0] == mmodels[i as int]);
                assert(mmodels.take(i + 1).drop_last() =~= mmodels.take(i as int));
                assert(mmodels.take(i + 1).last() == mmodels[i as int]);
            }
            let ghost pre = self@;
            let res = self.serialize_article(m);
            proof {
                assert(self@ == serialize_model(pre, mmodels[i as int]));
            }
            i = i + 1;
        }
        proof {
            assert(mmodels.take(total as int) =~= mmodels);
        }
        Ok(())
    }
}

/// Conservation at the writer: every message drained is accounted
/// exactly once — stored as one new article row, or counted as
/// skipped.
pub proof fn lemma_drain_accounting(w0: WriterModel, msgs: Seq<MessageModel>)
    ensures
        ({
            let w = drain_model(w0, msgs);
            (w.store.articles.len() - w0.store.articles.len()) + (w.skipped - w0.skipped)
                == msgs.len()
        }),
    decreases msgs.len(),
{
    if msgs.len() > 0 {
        lemma_drain_accounting(w0, msgs.drop_last());
    }
}

/// What the store reported for one article-row insert, as the caller
/// classified it from the store's error code.
pub enum InsertOutcome {
    /// The row was inserted under this rowid.
    Inserted {
        /// The rowid the store assigned.
        rowid: i64,
    },
    /// A uniqueness constraint refused the row: the name is already
    /// ingested.
    UniqueViolation,
    /// Any other failure.
    Failure {
        /// What the store said.
        message: String,
    },
}

/// What the writer does next after one article-row insert.
pub enum SqlInsertStep {
    /// Store the body row under this article id and commit.
    ProceedBody {
        /// The article row's id.
        article_id: i64,
    },
    /// Already ingested: count one skip and move on; not an error.
    SkipDuplicate,
    /// Any other store failure is fatal and aborts the run.
    Abort {
        /// What the store said.
        message: String,
    },
}

/// Classifies one insert outcome: an inserted row gets its body, a
/// uniqueness violation is "already ingested" — a skip, never fatal —
/// and any other failure aborts the run.
pub fn classify_insert(outcome: InsertOutcome) -> (r: SqlInsertStep)
    ensures
        outcome matches InsertOutcome::Inserted { rowid } ==> (r
            matches SqlInsertStep::ProceedBody { article_id } && article_id == rowid),
        outcome is UniqueViolation ==> r is SkipDuplicate,
        outcome matches InsertOutcome::Failure { message } ==> (r matches SqlInsertStep::Abort {
            message: m,
        } && m == message),
{
    match outcome {
        InsertOutcome::Inserted { rowid } => SqlInsertStep::ProceedBody { article_id: rowid },
        InsertOutcome::UniqueViolation => SqlInsertStep::SkipDuplicate,
        InsertOutcome::Failure { message } => SqlInsertStep::Abort { message },
    }
}

/// A row with no occurrence counts zero.
proof fn lemma_name_count_zero(articles: Seq<RowModel>, name: Seq<char>)
    requires
        !contains_name(articles, name),
    ensures
        name_count(articles, name) == 0,
    decreases articles.len(),
{
    reveal(Seq::filter);
    if articles.len() > 0 {
        assert(!contains_name(articles.drop_last(), name));
        lemma_name_count_zero(articles.drop_last(), name);
        assert(articles.last() == articles[articles.len() - 1]);
    }
}

/// Appending one row adds its name once to that name's count and
/// leaves every other count alone.
proof fn lemma_name_count_push(articles: Seq<RowModel>, r: RowModel, name: Seq<char>)
    ensures
        name_count(articles.push(r), name) == name_count(articles, name) + (if r.name == name {
            1int
        } else {
            0int
        }),
{
    reveal(Seq::filter);
    assert(articles.push(r).drop_last() =~= articles);
    assert(articles.push(r).last() == r);
}

/// Writing the same canonical key twice stores exactly one row for it,
/// counts exactly one skip, and changes the store only the first time:
/// never a duplicate row, never an error.
pub proof fn lemma_duplicate_write(w0: WriterModel, m1: MessageModel, m2: MessageModel)
    requires
        store_wf(w0.store),
        m1.name == m2.name,
        !contains_name(w0.store.articles, m1.name),
    ensures
        ({
            let w1 = serialize_model(w0, m1);
            let w2 = serialize_model(w1, m2);
            &&& name_count(w2.store.articles, m1.name) == 1
            &&& w2.skipped == w0.skipped + 1
            &&& w1.skipped == w0.skipped
            &&& w2.store == w1.store
        }),
{
    let w1 = serialize_model(w0, m1);
    let row = RowModel { id: w0.store.next_id, name: m1.name, url: m1.url };
    lemma_name_count_zero(w0.store.articles, m1.name);
    lemma_name_count_push(w0.store.articles, row, m1.name);
    assert(w1.store.articles == w0.store.articles.push(row));
    assert(contains_name(w1.store.articles, m2.name)) by {
        assert(w1.store.articles[w0.store.articles.len() as int].name == m1.name);
    }
}

} // verus!
