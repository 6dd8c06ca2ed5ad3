//! Path resolver: derives the stable per-installation locations of the
//! database file and the content cache tree from the application's base
//! data directory.

use vstd::prelude::*;

verus! {

/// The database file path: the base data directory joined with the fixed
/// database file name.
pub fn db_file_path(base_dir: &str) -> (r: String)
    ensures
        r@ == base_dir@ + "/school_data.db"@,
{
    let mut p = base_dir.to_owned();
    p.append("/school_data.db");
    p
}

/// Where a finished content asset lives: inside the cache tree, keyed by its
/// content identifier.
pub fn content_file_path(base_dir: &str, content_id: &str) -> (r: String)
    ensures
        r@ == base_dir@ + "/content/"@ + content_id@,
{
    let mut p = base_dir.to_owned();
    p.append("/content/");
    p.append(content_id);
    p
}

/// Where an in-progress download streams: a separate temporary subtree of
/// the cache, never exposed to readers, discarded on startup cleanup.
pub fn tmp_file_path(base_dir: &str, content_id: &str) -> (r: String)
    ensures
        r@ == base_dir@ + "/content/tmp/"@ + content_id@,
{
    let mut p = base_dir.to_owned();
    p.append("/content/tmp/");
    p.append(content_id);
    p
}

} // verus!
