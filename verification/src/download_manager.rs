//! The download list behind the download manager panel: newest first, with
//! progress, completion and failure updates addressed by download id.

use vstd::prelude::*;
use crate::text::{lemma_filter_push, str_eq};
use crate::types::{DownloadItem, DownloadStatus};

verus! {

pub open spec fn is_active(item: DownloadItem) -> bool {
    item.status is Downloading
}

pub open spec fn active() -> spec_fn(DownloadItem) -> bool {
    |item: DownloadItem| is_active(item)
}

/// Number of leading items whose id differs from `id`: the index of the
/// first item with that id, or the length when there is none.
pub open spec fn id_index(s: Seq<DownloadItem>, id: Seq<char>) -> nat
    decreases s.len(),
{
    if s.len() > 0 && s[0].id@ != id {
        1 + id_index(s.drop_first(), id)
    } else {
        0
    }
}

/// `s` with the status of the first item whose id is `id` replaced by
/// `status`; unchanged when no item has that id.
pub open spec fn with_status(s: Seq<DownloadItem>, id: Seq<char>, status: DownloadStatus) -> Seq<
    DownloadItem,
> {
    let k = id_index(s, id);
    if k < s.len() {
        s.update(k as int, DownloadItem { status: status, ..s[k as int] })
    } else {
        s
    }
}

proof fn lemma_id_index(s: Seq<DownloadItem>, id: Seq<char>, k: int)
    requires
        0 <= k <= s.len(),
        forall|i: int| 0 <= i < k ==> #[trigger] s[i].id@ != id,
        k < s.len() ==> s[k].id@ == id,
    ensures
        id_index(s, id) == k,
    decreases k,
{
    if k > 0 {
        assert forall|i: int| 0 <= i < k - 1 implies #[trigger] s.drop_first()[i].id@ != id by {
            assert(s.drop_first()[i] == s[i + 1]);
        }
        if k - 1 < s.drop_first().len() {
            assert(s.drop_first()[k - 1] == s[k]);
        }
        lemma_id_index(s.drop_first(), id, k - 1);
    }
}

pub struct DownloadManagerView {
    pub items: Vec<DownloadItem>,
}

impl DownloadManagerView {
    pub fn new() -> (r: Self)
        ensures
            r.items@.len() == 0,
    {
        Self { items: Vec::new() }
    }

    /// Number of downloads still in progress.
    pub fn active_count(&self) -> (r: usize)
        ensures
            r == self.items@.filter(active()).len(),
    {
        let mut n: usize = 0;
        let mut i: usize = 0;
        while i < self.items.len()
            invariant
                i <= self.items@.len(),
                n == self.items@.take(i as int).filter(active()).len(),
                n <= i,
            decreases self.items@.len() - i,
        {
            proof {
                lemma_filter_push(self.items@.take(i as int), self.items@[i as int], active());
                assert(self.items@.take(i + 1) =~= self.items@.take(i as int).push(
                    self.items@[i as int],
                ));
            }
            if matches!(self.items[i].status, DownloadStatus::Downloading { .. }) {
                n = n + 1;
            }
            i = i + 1;
        }
        assert(self.items@.take(i as int) =~= self.items@);
        n
    }

    /// Puts `item` at the front of the list.
    pub fn add_item(&mut self, item: DownloadItem)
        ensures
            final(self).items@ == seq![item] + old(self).items@,
    {
        self.items.insert(0, item);
        assert(self.items@ =~= seq![item] + old(self).items@);
    }

    fn set_status(&mut self, id: &str, status: DownloadStatus)
        ensures
            final(self).items@ == with_status(old(self).items@, id@, status),
    {
        let mut k: usize = 0;
        while k < self.items.len() && !str_eq(self.items[k].id.as_str(), id)
            invariant
                k <= self.items@.len(),
                self.items@ == old(self).items@,
                forall|i: int| 0 <= i < k ==> #[trigger] self.items@[i].id@ != id@,
            decreases self.items@.len() - k,
        {
            k = k + 1;
        }
        proof {
            lemma_id_index(self.items@, id@, k as int);
        }
        if k < self.items.len() {
            let mut item = self.items.remove(k);
            item.status = status;
            self.items.insert(k, item);
            assert(self.items@ =~= with_status(old(self).items@, id@, status));
        }
    }

    /// Records progress of the first download whose id is `id`.
    pub fn update_progress(&mut self, id: &str, bytes_downloaded: u64, total_bytes: u64, speed_bps: u64)
        ensures
            final(self).items@ == with_status(
                old(self).items@,
                id@,
                DownloadStatus::Downloading { bytes_downloaded, total_bytes, speed_bps },
            ),
    {
        self.set_status(id, DownloadStatus::Downloading { bytes_downloaded, total_bytes, speed_bps });
    }

    /// Marks the first download whose id is `id` as complete.
    pub fn complete(&mut self, id: &str)
        ensures
            final(self).items@ == with_status(old(self).items@, id@, DownloadStatus::Complete),
    {
        self.set_status(id, DownloadStatus::Complete);
    }

    /// Marks the first download whose id is `id` as failed with `error`.
    pub fn fail(&mut self, id: &str, error: String)
        ensures
            final(self).items@ == with_status(old(self).items@, id@, DownloadStatus::Failed(error)),
    {
        self.set_status(id, DownloadStatus::Failed(error));
    }

    /// Drops every finished (complete or failed) download, keeping the order
    /// of the ones still in progress.
    pub fn clear_completed(&mut self)
        ensures
            final(self).items@ == old(self).items@.filter(active()),
    {
        let mut kept: Vec<DownloadItem> = Vec::new();
        let ghost orig = self.items@;
        let n = self.items.len();
        let mut i: usize = 0;
        while i < n
            invariant
                n == orig.len(),
                i <= n,
                self.items@ == orig.skip(i as int),
                kept@ == orig.take(i as int).filter(active()),
            decreases n - i,
        {
            let item = self.items.remove(0);
            proof {
                assert(item == orig[i as int]);
                lemma_filter_push(orig.take(i as int), item, active());
                assert(orig.take(i + 1) =~= orig.take(i as int).push(item));
                assert(orig.skip(i as int).drop_first() =~= orig.skip(i + 1));
            }
            if matches!(item.status, DownloadStatus::Downloading { .. }) {
                kept.push(item);
            }
            i = i + 1;
        }
        assert(orig.take(n as int) =~= orig);
        self.items = kept;
    }
}


/// Clearing finished downloads keeps every download in progress: the
/// in-progress items of the cleared list are the in-progress items before.
pub proof fn law_clear_keeps_active(items: Seq<DownloadItem>)
    ensures
        items.filter(active()).filter(active()) == items.filter(active()),
    decreases items.len(),
{
    if items.len() > 0 {
        let t = items.drop_last();
        let x = items.last();
        law_clear_keeps_active(t);
        assert(items =~= t.push(x));
        lemma_filter_push(t, x, active());
        if is_active(x) {
            lemma_filter_push(t.filter(active()), x, active());
        }
    }
}

} // verus!
