//! The filesystem sink: each record becomes one file at its sharded
//! path, with optional skipping of files that already exist, a
//! record-count limit that cancels the run, and exact accounting of
//! what was written, skipped and rejected.
use vstd::prelude::*;

use crate::article::{Article, ArticleModel, DecodeModel, DecodeOutcome};
use crate::keys::{key_of_url, parse_url, sanitize_name, sanitize_spec};
use crate::pipeline::ExtractState;
use crate::shard::{sep, shard_dir, shard_dir_spec, DirSet};

verus! {

/// The configuration of one filesystem-sink run, as mathematics.
pub struct FileCfg {
    pub limit: Option<int>,
    pub skip_existing: bool,
    pub no_nesting: bool,
    pub target_dir: Seq<char>,
}

/// The filesystem sink of one run: its configuration, its skip
/// counter, and the set of shard directories known to exist.
pub struct FileSink {
    /// The limit on the number of records to extract, if any.
    pub limit: Option<u64>,
    /// Skip records whose target file already exists.
    pub skip_existing: bool,
    /// Write all files flat instead of into shard directories.
    pub no_nesting: bool,
    /// Whether every extracted record is reported.
    pub verbose: bool,
    /// The directory files are extracted into.
    pub target_dir: String,
    /// How many records were skipped because their file existed.
    pub skipped: u64,
    /// The shard directories known to exist, shared by the run's
    /// workers.
    pub dirs: DirSet,
}

/// What the sink decides to do with one well-formed record.
pub enum FileAction {
    /// The record-count limit is reached: stop the run, a success.
    Cancel,
    /// The record's URL yields no canonical key: warn and go on.
    SkipBadUrl,
    /// Persist the record at its sharded path.
    Store {
        /// The shard directory the file belongs in.
        dir: String,
        /// The file's full destination path.
        path: String,
        /// Whether the shard directory still has to be created.
        mkdir_needed: bool,
    },
}

/// The directory a record's file belongs in.
pub open spec fn dest_dir_spec(cfg: FileCfg, a: ArticleModel) -> Seq<char> {
    if cfg.no_nesting {
        cfg.target_dir
    } else {
        shard_dir_spec(cfg.target_dir, sanitize_spec(key_of_url(a.url).unwrap()))
    }
}

/// The full destination path of a record's file.
pub open spec fn dest_path_spec(cfg: FileCfg, a: ArticleModel) -> Seq<char> {
    dest_dir_spec(cfg, a) + sep() + sanitize_spec(key_of_url(a.url).unwrap())
}

impl FileSink {
    /// This sink's configuration, as mathematics.
    pub open spec fn cfg(&self) -> FileCfg {
        FileCfg {
            limit: match self.limit {
                Some(l) => Some(l as int),
                None => None,
            },
            skip_existing: self.skip_existing,
            no_nesting: self.no_nesting,
            target_dir: self.target_dir@,
        }
    }

    /// A fresh sink for one run.
    pub fn new(
        limit: Option<u64>,
        skip_existing: bool,
        no_nesting: bool,
        verbose: bool,
        target_dir: String,
    ) -> (r: FileSink)
        ensures
            r.limit == limit,
            r.skip_existing == skip_existing,
            r.no_nesting == no_nesting,
            r.verbose == verbose,
            r.target_dir == target_dir,
            r.skipped == 0,
            r.dirs@ == Set::<Seq<char>>::empty(),
    {
        FileSink { limit, skip_existing, no_nesting, verbose, target_dir, skipped: 0, dirs: DirSet::new() }
    }

    /// Decides what to do with one well-formed record: cancel at the
    /// limit, reject a URL without a canonical key, otherwise name the
    /// record's destination, remembering its shard directory so that
    /// repeated creation is elided. A caller that then fails to create
    /// the directory drops it from `dirs` again, so the set keeps only
    /// directories known to exist. `count` is the progress-counter
    /// value the record was taken at.
    pub fn on_parse_plan(&mut self, count: u64, article: &Article) -> (r: FileAction)
        ensures
            final(self).cfg() == old(self).cfg(),
            final(self).verbose == old(self).verbose,
            final(self).skipped == old(self).skipped,
            (match old(self).limit {
                Some(l) => count >= l,
                None => false,
            }) ==> r is Cancel && final(self).dirs@ == old(self).dirs@,
            !(match old(self).limit {
                Some(l) => count >= l,
                None => false,
            }) && key_of_url(article.url@) is None ==> r is SkipBadUrl && final(self).dirs@
                == old(self).dirs@,
            !(match old(self).limit {
                Some(l) => count >= l,
                None => false,
            }) && key_of_url(article.url@) is Some ==> (r matches FileAction::Store {
                dir,
                path,
                mkdir_needed,
            } && dir@ == dest_dir_spec(old(self).cfg(), article@) && path@ == dest_path_spec(
                old(self).cfg(),
                article@,
            ) && mkdir_needed == !old(self).dirs@.contains(dir@) && final(self).dirs@ == old(
                self,
            ).dirs@.insert(dir@)),
    {
        match self.limit {
            Some(l) => {
                if count >= l {
                    return FileAction::Cancel;
                }
            },
            None => {},
        }
        match parse_url(article.url.as_str()) {
            Err(_) => FileAction::SkipBadUrl,
            Ok(key) => {
                let name = sanitize_name(key.as_str());
                let dir = if self.no_nesting {
                    self.target_dir.clone()
                } else {
                    shard_dir(self.target_dir.as_str(), name.as_str())
                };
                let mut path = dir.clone();
                path.append("/");
                path.append(name.as_str());
                proof {
                    reveal_strlit("/");
                    assert("/"@ =~= sep());
                }
                let known = self.dirs.check_and_insert(&dir);
                FileAction::Store { dir, path, mkdir_needed: !known }
            },
        }
    }

    /// Counts one record whose file already existed, returning the
    /// skip count before it for the periodic report.
    pub fn note_skipped(&mut self) -> (r: u64)
        requires
            old(self).skipped < u64::MAX,
        ensures
            r == old(self).skipped,
            final(self).skipped == old(self).skipped + 1,
            final(self).cfg() == old(self).cfg(),
            final(self).verbose == old(self).verbose,
            final(self).dirs@ == old(self).dirs@,
    {
        let r = self.skipped;
        self.skipped = self.skipped + 1;
        r
    }
}

/// The running totals of one filesystem-sink stream run.
pub struct FileRunModel {
    /// The shared progress counter.
    pub count: int,
    /// Records skipped because their file existed.
    pub skipped: int,
    /// The destination paths written, in stream order.
    pub written: Seq<Seq<char>>,
    /// Records that failed to decode.
    pub decode_errors: int,
    /// Well-formed records whose URL yields no key.
    pub bad_urls: int,
    /// Whether the run was cancelled by the record-count limit.
    pub cancelled: bool,
    /// The shard directories known to exist.
    pub dirs: Set<Seq<char>>,
}

/// How one stream element changes the running totals. A cancelled run
/// takes no further record. A well-formed record is counted first,
/// then cancelled at the limit, rejected without a key, skipped when
/// its file exists under `skip_existing`, or written.
pub open spec fn file_step(
    cfg: FileCfg,
    existing: Set<Seq<char>>,
    m: FileRunModel,
    d: DecodeModel,
) -> FileRunModel {
    if m.cancelled {
        m
    } else {
        match d {
            DecodeModel::Malformed => FileRunModel { decode_errors: m.decode_errors + 1, ..m },
            DecodeModel::Parsed(a) => {
                let c = m.count;
                let m1 = FileRunModel { count: m.count + 1, ..m };
                if match cfg.limit {
                    Some(l) => c >= l,
                    None => false,
                } {
                    FileRunModel { cancelled: true, ..m1 }
                } else {
                    match key_of_url(a.url) {
                        None => FileRunModel { bad_urls: m1.bad_urls + 1, ..m1 },
                        Some(_) => {
                            let dir = dest_dir_spec(cfg, a);
                            let path = dest_path_spec(cfg, a);
                            let m2 = FileRunModel { dirs: m1.dirs.insert(dir), ..m1 };
                            if cfg.skip_existing && existing.contains(path) {
                                FileRunModel { skipped: m2.skipped + 1, ..m2 }
                            } else {
                                FileRunModel { written: m2.written.push(path), ..m2 }
                            }
                        },
                    }
                }
            },
        }
    }
}

/// The totals after one whole stream, folded element by element.
pub open spec fn file_run_spec(
    cfg: FileCfg,
    existing: Set<Seq<char>>,
    m0: FileRunModel,
    stream: Seq<DecodeModel>,
) -> FileRunModel
    decreases stream.len(),
{
    if stream.len() == 0 {
        m0
    } else {
        file_step(cfg, existing, file_run_spec(cfg, existing, m0, stream.drop_last()), stream.last())
    }
}

/// The set of paths a listing of existing files denotes.
pub open spec fn path_set(paths: Seq<String>) -> Set<Seq<char>> {
    Set::new(|p: Seq<char>| exists|i: int| 0 <= i < paths.len() && paths[i]@ == p)
}

/// Whether a path occurs in a listing of existing files.
fn path_known(existing: &Vec<String>, path: &String) -> (r: bool)
    ensures
        r == path_set(existing@).contains(path@),
{
    let n = existing.len();
    let mut i: usize = 0;
    while i < n
        invariant
            0 <= i <= n,
            n == existing@.len(),
            forall|j: int| 0 <= j < i ==> existing@[j]@ != path@,
        decreases n - i,
    {
        if existing[i] == *path {
            return true;
        }
        i = i + 1;
    }
    false
}

/// The summary one stream run returns beside the counters it advances.
pub struct FileRunSummary {
    /// The destination paths written, in stream order.
    pub written: Vec<String>,
    /// Records that failed to decode.
    pub decode_errors: u64,
    /// Well-formed records whose URL yields no key.
    pub bad_urls: u64,
    /// Whether the record-count limit cancelled the run.
    pub cancelled: bool,
}

/// The starting totals of a run: the counters as they stand, an empty
/// summary, and cancelled when the run was already asked to stop.
pub open spec fn init_model(state: ExtractState, sink: FileSink) -> FileRunModel {
    FileRunModel {
        count: state.count as int,
        skipped: sink.skipped as int,
        written: Seq::empty(),
        decode_errors: 0,
        bad_urls: 0,
        cancelled: state.should_stop,
        dirs: sink.dirs@,
    }
}

impl FileSink {
    /// Runs one decoded stream against this sink: the per-record loop
    /// of a worker. The stop flag is honoured before every record; a
    /// well-formed record is counted, then cancelled at the limit,
    /// rejected without a key, skipped when its file exists under
    /// `skip_existing`, or written; a malformed record is counted as a
    /// decode error and the stream goes on. `existing` lists the files
    /// already present. The resulting counters and summary are exactly
    /// the fold of the per-record step over the stream.
    pub fn run_extract(
        &mut self,
        state: &mut ExtractState,
        stream: &Vec<DecodeOutcome>,
        existing: &Vec<String>,
    ) -> (r: FileRunSummary)
        requires
            old(state).count + stream@.len() <= u64::MAX,
            old(self).skipped + stream@.len() <= u64::MAX,
            stream@.len() <= u64::MAX,
        ensures
            final(self).cfg() == old(self).cfg(),
            final(self).verbose == old(self).verbose,
            final(state).should_stop == old(state).should_stop,
            final(state).error == old(state).error,
            ({
                let m = file_run_spec(
                    old(self).cfg(),
                    path_set(existing@),
                    init_model(*old(state), *old(self)),
                    stream@.map_values(|d: DecodeOutcome| d@),
                );
                &&& final(state).count == m.count
                &&& final(self).skipped == m.skipped
                &&& r.written@.map_values(|s: String| s@) == m.written
                &&& r.decode_errors == m.decode_errors
                &&& r.bad_urls == m.bad_urls
                &&& r.cancelled == m.cancelled
                &&& final(self).dirs@ == m.dirs
            }),
    {
        let ghost cfg = old(self).cfg();
        let ghost ex = path_set(existing@);
        let ghost m0 = init_model(*old(state), *old(self));
        let ghost smodels = stream@.map_values(|d: DecodeOutcome| d@);
        let mut written: Vec<String> = Vec::new();
        let mut decode_errors: u64 = 0;
        let mut bad_urls: u64 = 0;
        let mut cancelled: bool = state.should_stop;
        let n = stream.len();
        let mut i: usize = 0;
        proof {
            assert(file_run_spec(cfg, ex, m0, smodels.take(0)) == m0);
        }
        while i < n
            invariant
                0 <= i <= n,
                n == stream@.len(),
                smodels == stream@.map_values(|d: DecodeOutcome| d@),
                ex == path_set(existing@),
                m0 == init_model(*old(state), *old(self)),
                self.cfg() == cfg,
                cfg == old(self).cfg(),
                self.verbose == old(self).verbose,
                state.should_stop == old(state).should_stop,
                state.error == old(state).error,
                old(state).count + n <= u64::MAX,
                old(self).skipped + n <= u64::MAX,
                state.count <= old(state).count + i,
                self.skipped <= old(self).skipped + i,
                decode_errors <= i,
                bad_urls <= i,
                ({
                    let m = file_run_spec(cfg, ex, m0, smodels.take(i as int));
                    &&& state.count == m.count
                    &&& self.skipped == m.skipped
                    &&& written@.map_values(|s: String| s@) == m.written
                    &&& decode_errors == m.decode_errors
                    &&& bad_urls == m.bad_urls
                    &&& cancelled == m.cancelled
                    &&& self.dirs@ == m.dirs
                }),
            decreases n - i,
        {
            let ghost m_i = file_run_spec(cfg, ex, m0, smodels.take(i as int));
            proof {
                assert(smodels.take(i + 1).drop_last() =~= smodels.take(i as int));
                assert(smodels.take(i + 1).last() == smodels[i as int]);
                assert(smodels[i as int] == stream@[i as int]@);
            }
            if !cancelled {
                match &stream[i] {
                    DecodeOutcome::Malformed { .. } => {
                        decode_errors = decode_errors + 1;
                    },
                    DecodeOutcome::Parsed(article) => {
                        let c = state.next_count();
                        let action = self.on_parse_plan(c, article);
                        match action {
                            FileAction::Cancel => {
                                cancelled = true;
                            },
                            FileAction::SkipBadUrl => {
                                bad_urls = bad_urls + 1;
                            },
                            FileAction::Store { dir: _, path, mkdir_needed: _ } => {
                                let skip = if self.skip_existing {
                                    path_known(existing, &path)
                                } else {
                                    false
                                };
                                if skip {
                                    self.note_skipped();
                                } else {
                                    let ghost oldwritten = written@;
                                    written.push(path);
                                    proof {
                                        assert(written@.map_values(|s: String| s@)
                                            =~= oldwritten.map_values(|s: String| s@).push(
                                            dest_path_spec(cfg, article@),
                                        ));
                                    }
                                }
                            },
                        }
                    },
                }
            }
            i = i + 1;
        }
        proof {
            assert(smodels.take(n as int) =~= smodels);
        }
        FileRunSummary { written, decode_errors, bad_urls, cancelled }
    }
}

/// Conservation: over one run without a record limit, every record
/// read is accounted exactly once — written, skipped because its file
/// existed, rejected for its URL, or a decode error — and the run is
/// never cancelled.
pub proof fn lemma_run_conservation(
    cfg: FileCfg,
    existing: Set<Seq<char>>,
    m0: FileRunModel,
    stream: Seq<DecodeModel>,
)
    requires
        !m0.cancelled,
        cfg.limit is None,
        m0.written.len() == 0,
        m0.decode_errors == 0,
        m0.bad_urls == 0,
    ensures
        ({
            let m = file_run_spec(cfg, existing, m0, stream);
            &&& !m.cancelled
            &&& m.written.len() + (m.skipped - m0.skipped) + m.decode_errors + m.bad_urls
                == stream.len()
        }),
    decreases stream.len(),
{
    if stream.len() > 0 {
        lemma_run_conservation(cfg, existing, m0, stream.drop_last());
    }
}

/// The write total adds up: over one run without a record limit, on a
/// stream whose well-formed records all carry a derivable key, the
/// files written plus the records skipped plus the decode errors equal
/// the records read.
pub proof fn lemma_run_accounting(
    cfg: FileCfg,
    existing: Set<Seq<char>>,
    m0: FileRunModel,
    stream: Seq<DecodeModel>,
)
    requires
        !m0.cancelled,
        cfg.limit is None,
        m0.written.len() == 0,
        m0.decode_errors == 0,
        m0.bad_urls == 0,
        forall|j: int|
            0 <= j < stream.len() ==> match #[trigger] stream[j] {
                DecodeModel::Parsed(a) => key_of_url(a.url) is Some,
                DecodeModel::Malformed => true,
            },
    ensures
        ({
            let m = file_run_spec(cfg, existing, m0, stream);
            &&& m.bad_urls == 0
            &&& m.written.len() + (m.skipped - m0.skipped) + m.decode_errors == stream.len()
        }),
    decreases stream.len(),
{
    lemma_run_conservation(cfg, existing, m0, stream);
    if stream.len() > 0 {
        assert forall|j: int| 0 <= j < stream.drop_last().len() implies match #[trigger] stream.drop_last()[j] {
            DecodeModel::Parsed(a) => key_of_url(a.url) is Some,
            DecodeModel::Malformed => true,
        } by {
            assert(stream.drop_last()[j] == stream[j]);
        }
        lemma_run_accounting(cfg, existing, m0, stream.drop_last());
        assert(stream.last() == stream[stream.len() - 1]);
    }
}

/// Cancellation: with a record limit, the progress counter stops at
/// the limit, passing it by at most the one record that trips the
/// stop; once cancelled nothing more advances.
pub proof fn lemma_cancellation_bound(
    cfg: FileCfg,
    existing: Set<Seq<char>>,
    m0: FileRunModel,
    stream: Seq<DecodeModel>,
    k: int,
)
    requires
        cfg.limit == Some(k),
        m0.count <= k + 1,
        !m0.cancelled ==> m0.count <= k,
    ensures
        ({
            let m = file_run_spec(cfg, existing, m0, stream);
            &&& m.count <= k + 1
            &&& (!m.cancelled ==> m.count <= k)
        }),
    decreases stream.len(),
{
    if stream.len() > 0 {
        lemma_cancellation_bound(cfg, existing, m0, stream.drop_last(), k);
    }
}

} // verus!
