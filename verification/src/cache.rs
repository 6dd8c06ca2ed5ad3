//! Content cache manager: fetches named content assets by identifier and
//! URL into a content-addressed cache tree, verifies integrity, and reports
//! cache hits without touching the network.
//!
//! The manager decides; the caller streams bytes and moves files. Every
//! transition of an asset's lifecycle is verified here: a complete asset
//! answers from cache, at most one download per content identifier is in
//! flight, an interrupted download is reset to pending on startup and its
//! temporary file discarded, and a checksum mismatch is never addressable
//! as complete.

use vstd::prelude::*;

use crate::errors::FetchError;

verus! {

/// The lifecycle of a content asset.
#[derive(Clone, Copy, Debug, PartialEq, Eq, Structural)]
pub enum AssetStatus {
    /// Known but not (or no longer) on disk.
    Pending,
    /// A transfer for it is in flight.
    Downloading,
    /// On disk at `local_path` with a verified checksum.
    Complete,
    /// The last transfer failed; retryable.
    Failed,
}

/// One cached content asset.
#[derive(Debug)]
pub struct ContentAsset {
    pub content_id: String,
    pub source_url: String,
    /// Where the finished file lives.
    pub local_path: String,
    /// Where its in-progress download streams.
    pub tmp_path: String,
    pub checksum: u64,
    pub size_bytes: u64,
    pub status: AssetStatus,
}

impl Clone for ContentAsset {
    fn clone(&self) -> (r: Self)
        ensures
            r == *self,
    {
        ContentAsset {
            content_id: self.content_id.clone(),
            source_url: self.source_url.clone(),
            local_path: self.local_path.clone(),
            tmp_path: self.tmp_path.clone(),
            checksum: self.checksum,
            size_bytes: self.size_bytes,
            status: self.status,
        }
    }
}

/// Asset `a` is the one named by `id`.
pub open spec fn is_asset(a: ContentAsset, id: Seq<char>) -> bool {
    a.content_id@ == id
}

/// No two assets share a content identifier.
pub open spec fn assets_unique(assets: Seq<ContentAsset>) -> bool {
    forall|i: int, j: int|
        #![trigger assets[i], assets[j]]
        0 <= i < j < assets.len() ==> assets[i].content_id@ != assets[j].content_id@
}

/// Some asset is named by `id`.
pub open spec fn has_asset(assets: Seq<ContentAsset>, id: Seq<char>) -> bool {
    exists|i: int| 0 <= i < assets.len() && is_asset(#[trigger] assets[i], id)
}

/// The index of the asset named by `id`; meaningful only when `has_asset`
/// holds, and then unique under `assets_unique`.
pub open spec fn asset_at(assets: Seq<ContentAsset>, id: Seq<char>) -> int {
    choose|i: int| 0 <= i < assets.len() && is_asset(#[trigger] assets[i], id)
}

/// Under uniqueness, any matching asset index is the `asset_at` index.
pub proof fn lemma_asset_at_is(assets: Seq<ContentAsset>, id: Seq<char>, i: int)
    requires
        assets_unique(assets),
        0 <= i < assets.len(),
        is_asset(assets[i], id),
    ensures
        has_asset(assets, id),
        asset_at(assets, id) == i,
{
    assert(has_asset(assets, id));
    let j = asset_at(assets, id);
    assert(0 <= j < assets.len() && is_asset(assets[j], id));
}

/// What a fetch request decided.
pub enum FetchDecision {
    /// Cache hit: the asset is complete; no transfer happens.
    Hit { local_path: String, checksum: u64 },
    /// A transfer for this content identifier is already in flight; this
    /// request attaches to its result instead of starting a duplicate.
    Attach,
    /// One transfer starts: stream to `tmp_path`, then verify and promote
    /// to `final_path`.
    Download { tmp_path: String, final_path: String },
}

/// The content cache: the base data directory and the known assets.
pub struct CacheManager {
    pub base_dir: String,
    pub assets: Vec<ContentAsset>,
}

impl CacheManager {
    /// Each content identifier names at most one asset.
    pub open spec fn inv(self) -> bool {
        assets_unique(self.assets@)
    }

    /// A cache over the given base directory, knowing no assets yet.
    pub fn new(base_dir: String) -> (r: CacheManager)
        ensures
            r.inv(),
            r.base_dir == base_dir,
            r.assets@ == Seq::<ContentAsset>::empty(),
    {
        CacheManager { base_dir, assets: Vec::new() }
    }

    /// The index of the asset named by `content_id`, if one is known.
    fn find_asset(&self, content_id: &String) -> (r: Option<usize>)
        ensures
            match r {
                Some(i) => i < self.assets@.len() && is_asset(self.assets@[i as int], content_id@),
                None => !has_asset(self.assets@, content_id@),
            },
    {
        let mut i: usize = 0;
        while i < self.assets.len()
            invariant
                i <= self.assets@.len(),
                forall|k: int| 0 <= k < i ==> !is_asset(#[trigger] self.assets@[k], content_id@),
            decreases self.assets@.len() - i,
        {
            if self.assets[i].content_id == *content_id {
                return Some(i);
            }
            i = i + 1;
        }
        None
    }

    /// Decides one fetch request.
    ///
    /// Idempotent on completion: an asset already complete answers from
    /// cache, identical path and checksum, the cache untouched, and no
    /// transfer starts. At most one transfer per content identifier is in
    /// flight: while one is downloading, a second request attaches to it.
    /// Otherwise exactly one transfer starts and the asset is downloading.
    pub fn begin_fetch(&mut self, content_id: String, url: String) -> (d: FetchDecision)
        requires
            old(self).inv(),
        ensures
            final(self).inv(),
            final(self).base_dir == old(self).base_dir,
            (has_asset(old(self).assets@, content_id@) && old(self).assets@[asset_at(
                old(self).assets@,
                content_id@,
            )].status is Complete) ==> ({
                let a = old(self).assets@[asset_at(old(self).assets@, content_id@)];
                &&& d matches FetchDecision::Hit { local_path, checksum } && local_path
                    == a.local_path && checksum == a.checksum
                &&& *final(self) == *old(self)
            }),
            (has_asset(old(self).assets@, content_id@) && old(self).assets@[asset_at(
                old(self).assets@,
                content_id@,
            )].status is Downloading) ==> d is Attach && *final(self) == *old(self),
            !has_asset(old(self).assets@, content_id@) ==> ({
                let a = final(self).assets@.last();
                &&& (d matches FetchDecision::Download { tmp_path, final_path } && final_path@
                    == old(self).base_dir@ + "/content/"@ + content_id@ && tmp_path@ == old(self).base_dir@ + "/content/tmp/"@ + content_id@)
                &&& final(self).assets@ == old(self).assets@.push(a)
                &&& a.content_id == content_id
                &&& a.source_url == url
                &&& a.local_path@ == old(self).base_dir@ + "/content/"@ + content_id@
                &&& a.tmp_path@ == old(self).base_dir@ + "/content/tmp/"@ + content_id@
                &&& a.checksum == 0
                &&& a.size_bytes == 0
                &&& a.status is Downloading
            }),
            (has_asset(old(self).assets@, content_id@) && (old(self).assets@[asset_at(
                old(self).assets@,
                content_id@,
            )].status is Pending || old(self).assets@[asset_at(
                old(self).assets@,
                content_id@,
            )].status is Failed)) ==> ({
                let i = asset_at(old(self).assets@, content_id@);
                let prev = old(self).assets@[i];
                &&& (d matches FetchDecision::Download { tmp_path, final_path } && final_path
                    == prev.local_path && tmp_path == prev.tmp_path)
                &&& final(self).assets@ == old(self).assets@.update(
                    i,
                    ContentAsset {
                        content_id: prev.content_id,
                        source_url: url,
                        local_path: prev.local_path,
                        tmp_path: prev.tmp_path,
                        checksum: 0,
                        size_bytes: 0,
                        status: AssetStatus::Downloading,
                    },
                )
            }),
    {
        match self.find_asset(&content_id) {
            Some(i) => {
                proof {
                    lemma_asset_at_is(self.assets@, content_id@, i as int);
                }
                match self.assets[i].status {
                    AssetStatus::Complete => FetchDecision::Hit {
                        local_path: self.assets[i].local_path.clone(),
                        checksum: self.assets[i].checksum,
                    },
                    AssetStatus::Downloading => FetchDecision::Attach,
                    _ => {
                        let prev = self.assets.remove(i);
                        let tmp_path = prev.tmp_path.clone();
                        let final_path = prev.local_path.clone();
                        let fresh = ContentAsset {
                            content_id: prev.content_id,
                            source_url: url,
                            local_path: prev.local_path,
                            tmp_path: prev.tmp_path,
                            checksum: 0,
                            size_bytes: 0,
                            status: AssetStatus::Downloading,
                        };
                        self.assets.insert(i, fresh);
                        proof {
                            assert(self.assets@ =~= old(self).assets@.update(
                                i as int,
                                self.assets@[i as int],
                            ));
                            lemma_assets_unique_update(
                                old(self).assets@,
                                i as int,
                                self.assets@[i as int],
                            );
                        }
                        FetchDecision::Download { tmp_path, final_path }
                    },
                }
            },
            None => {
                let final_path = crate::paths::content_file_path(
                    self.base_dir.as_str(),
                    content_id.as_str(),
                );
                let tmp_path = crate::paths::tmp_file_path(
                    self.base_dir.as_str(),
                    content_id.as_str(),
                );
                let fresh = ContentAsset {
                    content_id,
                    source_url: url,
                    local_path: final_path.clone(),
                    tmp_path: tmp_path.clone(),
                    checksum: 0,
                    size_bytes: 0,
                    status: AssetStatus::Downloading,
                };
                self.assets.push(fresh);
                proof {
                    lemma_assets_unique_push(old(self).assets@, self.assets@.last());
                }
                FetchDecision::Download { tmp_path, final_path }
            },
        }
    }

    /// Records the end of a transfer. On a checksum match the asset becomes
    /// complete (the caller then atomically promotes the verified temporary
    /// file into place); on a mismatch the asset fails and the bad bytes are
    /// discarded, never addressable as complete. Without a download in
    /// flight for this identifier the call is a local input/output error and
    /// changes nothing.
    pub fn finish_download(
        &mut self,
        content_id: &String,
        computed_checksum: u64,
        expected_checksum: u64,
        size_bytes: u64,
    ) -> (r: Result<String, FetchError>)
        requires
            old(self).inv(),
        ensures
            final(self).inv(),
            final(self).base_dir == old(self).base_dir,
            !(has_asset(old(self).assets@, content_id@) && old(self).assets@[asset_at(
                old(self).assets@,
                content_id@,
            )].status is Downloading) ==> r == Err::<String, FetchError>(FetchError::Io)
                && *final(self) == *old(self),
            (has_asset(old(self).assets@, content_id@) && old(self).assets@[asset_at(
                old(self).assets@,
                content_id@,
            )].status is Downloading) ==> ({
                let i = asset_at(old(self).assets@, content_id@);
                let prev = old(self).assets@[i];
                if computed_checksum == expected_checksum {
                    &&& (r matches Ok(p) && p == prev.local_path)
                    &&& final(self).assets@ == old(self).assets@.update(
                        i,
                        ContentAsset {
                            checksum: computed_checksum,
                            size_bytes,
                            status: AssetStatus::Complete,
                            ..prev
                        },
                    )
                } else {
                    &&& r == Err::<String, FetchError>(FetchError::ChecksumMismatch)
                    &&& final(self).assets@ == old(self).assets@.update(
                        i,
                        ContentAsset {
                            checksum: 0,
                            size_bytes: 0,
                            status: AssetStatus::Failed,
                            ..prev
                        },
                    )
                }
            }),
    {
        match self.find_asset(content_id) {
            None => Err(FetchError::Io),
            Some(i) => {
                proof {
                    lemma_asset_at_is(self.assets@, content_id@, i as int);
                }
                match self.assets[i].status {
                    AssetStatus::Downloading => {
                        let prev = self.assets.remove(i);
                        if computed_checksum == expected_checksum {
                            let path = prev.local_path.clone();
                            let done = ContentAsset {
                                checksum: computed_checksum,
                                size_bytes,
                                status: AssetStatus::Complete,
                                ..prev
                            };
                            self.assets.insert(i, done);
                            proof {
                                assert(self.assets@ =~= old(self).assets@.update(
                                    i as int,
                                    self.assets@[i as int],
                                ));
                                lemma_assets_unique_update(
                                    old(self).assets@,
                                    i as int,
                                    self.assets@[i as int],
                                );
                            }
                            Ok(path)
                        } else {
                            let failed = ContentAsset {
                                checksum: 0,
                                size_bytes: 0,
                                status: AssetStatus::Failed,
                                ..prev
                            };
                            self.assets.insert(i, failed);
                            proof {
                                assert(self.assets@ =~= old(self).assets@.update(
                                    i as int,
                                    self.assets@[i as int],
                                ));
                                lemma_assets_unique_update(
                                    old(self).assets@,
                                    i as int,
                                    self.assets@[i as int],
                                );
                            }
                            Err(FetchError::ChecksumMismatch)
                        }
                    },
                    _ => Err(FetchError::Io),
                }
            },
        }
    }

    /// Records a failed transfer: the asset becomes failed and retryable.
    /// Without a download in flight for this identifier, changes nothing.
    pub fn fail_download(&mut self, content_id: &String) -> (changed: bool)
        requires
            old(self).inv(),
        ensures
            final(self).inv(),
            final(self).base_dir == old(self).base_dir,
            !(has_asset(old(self).assets@, content_id@) && old(self).assets@[asset_at(
                old(self).assets@,
                content_id@,
            )].status is Downloading) ==> !changed && *final(self) == *old(self),
            (has_asset(old(self).assets@, content_id@) && old(self).assets@[asset_at(
                old(self).assets@,
                content_id@,
            )].status is Downloading) ==> changed && final(self).assets@ == old(self).assets@.update(
                asset_at(old(self).assets@, content_id@),
                ContentAsset {
                    status: AssetStatus::Failed,
                    ..old(self).assets@[asset_at(old(self).assets@, content_id@)]
                },
            ),
    {
        match self.find_asset(content_id) {
            None => false,
            Some(i) => {
                proof {
                    lemma_asset_at_is(self.assets@, content_id@, i as int);
                }
                match self.assets[i].status {
                    AssetStatus::Downloading => {
                        let prev = self.assets.remove(i);
                        let failed = ContentAsset { status: AssetStatus::Failed, ..prev };
                        self.assets.insert(i, failed);
                        proof {
                            assert(self.assets@ =~= old(self).assets@.update(
                                i as int,
                                self.assets@[i as int],
                            ));
                            lemma_assets_unique_update(
                                old(self).assets@,
                                i as int,
                                self.assets@[i as int],
                            );
                        }
                        true
                    },
                    _ => false,
                }
            },
        }
    }

    /// Startup cleanup after a crash: every asset left downloading returns
    /// to pending — an interrupted download is never complete — and its
    /// temporary file is handed back for discarding, so a partial file is
    /// never promoted. Every other asset is untouched.
    pub fn startup_cleanup(&mut self) -> (discard: Vec<String>)
        requires
            old(self).inv(),
        ensures
            final(self).inv(),
            final(self).base_dir == old(self).base_dir,
            final(self).assets@.len() == old(self).assets@.len(),
            forall|i: int|
                0 <= i < old(self).assets@.len() && (#[trigger] old(self).assets@[i]).status is Downloading ==> final(self).assets@[i] == (ContentAsset {
                    status: AssetStatus::Pending,
                    ..old(self).assets@[i]
                }),
            forall|i: int|
                0 <= i < old(self).assets@.len() && !((#[trigger] old(self).assets@[i]).status is Downloading) ==> final(self).assets@[i] == old(self).assets@[i],
            forall|i: int|
                0 <= i < final(self).assets@.len() ==> !((#[trigger] final(self).assets@[i]).status is Downloading),
            discard@ == old(self).assets@.filter(
                |a: ContentAsset| a.status is Downloading,
            ).map_values(|a: ContentAsset| a.tmp_path),
    {
        let ghost p = |a: ContentAsset| a.status is Downloading;
        let ghost f = |a: ContentAsset| a.tmp_path;
        let mut discard: Vec<String> = Vec::new();
        proof {
            assert(self.assets@.subrange(0, 0) =~= Seq::<ContentAsset>::empty());
            reveal(Seq::filter);
            assert(discard@ =~= self.assets@.subrange(0, 0).filter(p).map_values(f));
        }
        let mut i: usize = 0;
        while i < self.assets.len()
            invariant
                self.inv(),
                i <= self.assets@.len(),
                self.base_dir == old(self).base_dir,
                self.assets@.len() == old(self).assets@.len(),
                p == (|a: ContentAsset| a.status is Downloading),
                f == (|a: ContentAsset| a.tmp_path),
                forall|k: int| i <= k < old(self).assets@.len() ==> self.assets@[k] == old(self).assets@[k],
                forall|k: int|
                    0 <= k < i && (#[trigger] old(self).assets@[k]).status is Downloading ==> self.assets@[k]
                        == (ContentAsset { status: AssetStatus::Pending, ..old(self).assets@[k] }),
                forall|k: int|
                    0 <= k < i && !((#[trigger] old(self).assets@[k]).status is Downloading)
                        ==> self.assets@[k] == old(self).assets@[k],
                discard@ == old(self).assets@.subrange(0, i as int).filter(p).map_values(f),
            decreases self.assets@.len() - i,
        {
            proof {
                crate::store::lemma_filter_map_push(
                    old(self).assets@.subrange(0, i as int),
                    old(self).assets@[i as int],
                    p,
                    f,
                );
                assert(old(self).assets@.subrange(0, i as int).push(old(self).assets@[i as int])
                    =~= old(self).assets@.subrange(0, i as int + 1));
            }
            let downloading = match self.assets[i].status {
                AssetStatus::Downloading => true,
                _ => false,
            };
            if downloading {
                discard.push(self.assets[i].tmp_path.clone());
                let ghost pre = self.assets@;
                let prev = self.assets.remove(i);
                let reset = ContentAsset { status: AssetStatus::Pending, ..prev };
                self.assets.insert(i, reset);
                proof {
                    assert(self.assets@ =~= pre.update(i as int, self.assets@[i as int]));
                    assert forall|k: int|
                        0 <= k < self.assets@.len() implies (#[trigger] self.assets@[k]).content_id@
                        == old(self).assets@[k].content_id@ by {
                        if k != i as int {
                            assert(self.assets@[k] == pre[k]);
                            if k < i as int {
                                if old(self).assets@[k].status is Downloading {
                                    assert(pre[k] == (ContentAsset {
                                        status: AssetStatus::Pending,
                                        ..old(self).assets@[k]
                                    }));
                                } else {
                                    assert(pre[k] == old(self).assets@[k]);
                                }
                            } else {
                                assert(pre[k] == old(self).assets@[k]);
                            }
                        }
                    }
                    assert forall|a: int, b: int|
                        #![trigger self.assets@[a], self.assets@[b]]
                        0 <= a < b < self.assets@.len() implies self.assets@[a].content_id@
                        != self.assets@[b].content_id@ by {
                        assert(self.assets@[a].content_id@ == old(self).assets@[a].content_id@);
                        assert(self.assets@[b].content_id@ == old(self).assets@[b].content_id@);
                        assert(old(self).assets@[a].content_id@ != old(self).assets@[b].content_id@);
                    }
                }
            }
            i = i + 1;
        }
        proof {
            assert(old(self).assets@.subrange(0, old(self).assets@.len() as int) =~= old(self).assets@);
            assert forall|k: int|
                0 <= k < self.assets@.len() implies !((#[trigger] self.assets@[k]).status is Downloading) by {
                if old(self).assets@[k].status is Downloading {
                    assert(self.assets@[k] == (ContentAsset {
                        status: AssetStatus::Pending,
                        ..old(self).assets@[k]
                    }));
                } else {
                    assert(self.assets@[k] == old(self).assets@[k]);
                }
            }
        }
        discard
    }
}

impl CacheManager {
    /// Lazy integrity verification on first read after a restart: the caller
    /// reads the finished file and hands in whether it exists and what its
    /// bytes hash to. A complete asset whose file is present and matches its
    /// checksum stays addressable; one whose file is missing or corrupt
    /// returns to pending, so the next fetch re-downloads it. Any other
    /// asset is not addressable as complete and is untouched.
    pub fn verify_complete(&mut self, content_id: &String, file_ok: bool, computed_checksum: u64) -> (valid: bool)
        requires
            old(self).inv(),
        ensures
            final(self).inv(),
            final(self).base_dir == old(self).base_dir,
            !(has_asset(old(self).assets@, content_id@) && old(self).assets@[asset_at(
                old(self).assets@,
                content_id@,
            )].status is Complete) ==> !valid && *final(self) == *old(self),
            (has_asset(old(self).assets@, content_id@) && old(self).assets@[asset_at(
                old(self).assets@,
                content_id@,
            )].status is Complete) ==> ({
                let i = asset_at(old(self).assets@, content_id@);
                let prev = old(self).assets@[i];
                if file_ok && computed_checksum == prev.checksum {
                    valid && *final(self) == *old(self)
                } else {
                    !valid && final(self).assets@ == old(self).assets@.update(
                        i,
                        ContentAsset {
                            checksum: 0,
                            size_bytes: 0,
                            status: AssetStatus::Pending,
                            ..prev
                        },
                    )
                }
            }),
    {
        match self.find_asset(content_id) {
            None => false,
            Some(i) => {
                proof {
                    lemma_asset_at_is(self.assets@, content_id@, i as int);
                }
                match self.assets[i].status {
                    AssetStatus::Complete => {
                        if file_ok && computed_checksum == self.assets[i].checksum {
                            true
                        } else {
                            let prev = self.assets.remove(i);
                            let reset = ContentAsset {
                                checksum: 0,
                                size_bytes: 0,
                                status: AssetStatus::Pending,
                                ..prev
                            };
                            self.assets.insert(i, reset);
                            proof {
                                assert(self.assets@ =~= old(self).assets@.update(
                                    i as int,
                                    self.assets@[i as int],
                                ));
                                lemma_assets_unique_update(
                                    old(self).assets@,
                                    i as int,
                                    self.assets@[i as int],
                                );
                            }
                            false
                        }
                    },
                    _ => false,
                }
            },
        }
    }

    /// Explicit cache eviction: forgets the asset named by `content_id`
    /// entirely (the caller deletes its files). The only way an asset ever
    /// leaves the cache.
    pub fn evict(&mut self, content_id: &String) -> (removed: bool)
        requires
            old(self).inv(),
        ensures
            final(self).inv(),
            final(self).base_dir == old(self).base_dir,
            !has_asset(old(self).assets@, content_id@) ==> !removed && *final(self) == *old(self),
            has_asset(old(self).assets@, content_id@) ==> removed && final(self).assets@ == old(
                self,
            ).assets@.remove(asset_at(old(self).assets@, content_id@)),
    {
        match self.find_asset(content_id) {
            None => false,
            Some(i) => {
                proof {
                    lemma_asset_at_is(self.assets@, content_id@, i as int);
                }
                let _ = self.assets.remove(i);
                proof {
                    lemma_assets_unique_remove(old(self).assets@, i as int);
                }
                true
            },
        }
    }
}

/// Removing an asset keeps identifiers unique.
proof fn lemma_assets_unique_remove(assets: Seq<ContentAsset>, i: int)
    requires
        assets_unique(assets),
        0 <= i < assets.len(),
    ensures
        assets_unique(assets.remove(i)),
{
}

/// Replacing an asset with one of the same content identifier keeps
/// identifiers unique.
proof fn lemma_assets_unique_update(assets: Seq<ContentAsset>, i: int, a: ContentAsset)
    requires
        assets_unique(assets),
        0 <= i < assets.len(),
        a.content_id@ == assets[i].content_id@,
    ensures
        assets_unique(assets.update(i, a)),
{
}

/// Appending an asset whose identifier names no existing asset keeps
/// identifiers unique.
proof fn lemma_assets_unique_push(assets: Seq<ContentAsset>, a: ContentAsset)
    requires
        assets_unique(assets),
        !has_asset(assets, a.content_id@),
    ensures
        assets_unique(assets.push(a)),
{
    let s2 = assets.push(a);
    assert forall|i: int, j: int|
        #![trigger s2[i], s2[j]]
        0 <= i < j < s2.len() implies s2[i].content_id@ != s2[j].content_id@ by {
        if j == assets.len() as int {
            assert(s2[i] == assets[i]);
            if s2[i].content_id@ == a.content_id@ {
                assert(is_asset(assets[i], a.content_id@));
            }
        } else {
            assert(s2[i] == assets[i] && s2[j] == assets[j]);
        }
    }
}

} // verus!
