//! The run configurations, as plain values: the front end parses its
//! arguments into these.
use vstd::prelude::*;

verus! {

/// Configuration shared by every extraction front end.
pub struct BasicExtractCommand {
    /// Output verbose information (report every record extracted).
    pub verbose: bool,
    /// The input files to extract.
    pub targets: Vec<String>,
}

/// Configuration of the filesystem-sink extraction.
pub struct ExtractCommand {
    /// Output verbose information (report every record extracted).
    pub verbose: bool,
    /// The limit on the number of records to extract, if any.
    pub limit: Option<u64>,
    /// Skip records whose target file already exists.
    pub skip_existing: bool,
    /// Write all files flat instead of into shard directories.
    pub no_nesting: bool,
    /// The directory to extract files into, if not the default.
    pub output_dir: Option<String>,
    /// The input files to extract.
    pub targets: Vec<String>,
}

/// Configuration of the relational-sink extraction.
pub struct ExtractSqlCommand {
    /// The output database file.
    pub output: String,
    /// How many parse workers to run.
    pub workers: u32,
    /// The limit on the number of records to extract, if any.
    pub limit: Option<u64>,
    /// The input files to extract.
    pub targets: Vec<String>,
}

/// Configuration of the index derivative, which emits name-and-URL
/// pairs only.
pub struct IndexCommand {
    /// The directory to put index files into, if not the default.
    pub out_dir: Option<String>,
    /// The input files to index.
    pub targets: Vec<String>,
}

/// The output directory the filesystem sink uses when none was given.
pub fn default_output_dir(dir: Option<String>) -> (r: String)
    ensures
        dir matches Some(d) ==> r == d,
        dir is None ==> r@ == "extracted"@,
{
    match dir {
        Some(d) => d,
        None => String::from_str("extracted"),
    }
}

/// The output directory the index derivative uses when none was given.
pub fn default_index_dir(dir: Option<String>) -> (r: String)
    ensures
        dir matches Some(d) ==> r == d,
        dir is None ==> r@ == "index"@,
{
    match dir {
        Some(d) => d,
        None => String::from_str("index"),
    }
}

/// The name of the index file derived from one input file's stem.
pub fn index_file_name(stem: &str) -> (r: String)
    ensures
        r@ == stem@ + "-index.json"@,
{
    let out = String::from_str(stem).concat("-index.json");
    out
}

} // verus!
