//! The persisted batch of remote images, with its rotation cursor and the
//! flag that asks for a new batch.

use vstd::prelude::*;
use crate::paths::{Paths, join, join_path};
use crate::text::{push_text, string_from_chars};
use crate::timestamp::{Timestamp, parse_rfc3339_utc, rfc3339_utc};

verus! {

/// One photo of a remote search: its identity, the address of its full-size
/// file, when it was taken, and its description.
#[derive(Debug)]
pub struct OnlineImage {
    pub id: String,
    pub url: String,
    pub date: Option<Timestamp>,
    pub description: String,
}

/// The name under which a remote image is kept once fetched.
pub open spec fn download_file_name(id: Seq<char>) -> Seq<char> {
    "unsplash_"@ + id + ".jpg"@
}

impl OnlineImage {
    /// A descriptor read from the fields of one search result: identity,
    /// address of the full-size file, creation time in RFC 3339, and
    /// description. A missing field counts as empty, and a missing or
    /// malformed creation time as absent.
    pub fn from_record(
        id: Option<String>,
        url: Option<String>,
        created_at: Option<String>,
        description: Option<String>,
    ) -> (r: OnlineImage)
        ensures
            r.id@ == (if id is Some { id.unwrap()@ } else { Seq::<char>::empty() }),
            r.url@ == (if url is Some { url.unwrap()@ } else { Seq::<char>::empty() }),
            r.date == (match created_at {
                Some(t) => rfc3339_utc(t@),
                None => None,
            }),
            r.date is Some ==> r.date.unwrap().wf(),
            r.description@ == (if description is Some {
                description.unwrap()@
            } else {
                Seq::<char>::empty()
            }),
    {
        OnlineImage {
            id: match id {
                Some(s) => s,
                None => String::new(),
            },
            url: match url {
                Some(s) => s,
                None => String::new(),
            },
            date: match created_at {
                Some(t) => parse_rfc3339_utc(t.as_str()),
                None => None,
            },
            description: match description {
                Some(s) => s,
                None => String::new(),
            },
        }
    }

    /// An equal copy.
    pub fn duplicate(&self) -> (r: OnlineImage)
        ensures
            r == *self,
    {
        OnlineImage {
            id: self.id.clone(),
            url: self.url.clone(),
            date: self.date,
            description: self.description.clone(),
        }
    }

    /// Where the image is kept once fetched: a file named after its identity
    /// in the directory of downloaded pictures.
    pub fn get_path(&self, paths: &Paths) -> (r: String)
        ensures
            r@ == join(join(paths.base_dir@, "pictures"@), download_file_name(self.id@)),
    {
        let dir = paths.downloaded_pictures_dir();
        let mut v: Vec<char> = Vec::new();
        push_text(&mut v, "unsplash_");
        push_text(&mut v, self.id.as_str());
        push_text(&mut v, ".jpg");
        let name = string_from_chars(&v);
        join_path(dir.as_str(), name.as_str())
    }

    /// The caption of a remote image: its description.
    pub fn get_description(&self) -> (r: String)
        ensures
            r@ == self.description@,
    {
        self.description.clone()
    }
}

/// The store as the contracts see it.
pub struct StoreView {
    pub items: Seq<OnlineImage>,
    pub cursor: int,
    pub needs_refill: bool,
}

/// Whether the next remote selection first asks for a new batch.
pub open spec fn refill_due(v: StoreView) -> bool {
    v.needs_refill || v.cursor >= v.items.len()
}

/// The store after a new batch replaced the old one.
pub open spec fn refilled(batch: Seq<OnlineImage>) -> StoreView {
    StoreView { items: batch, cursor: 0, needs_refill: false }
}

/// The store after a failed refill.
pub open spec fn refill_failed(v: StoreView) -> StoreView {
    StoreView { needs_refill: true, ..v }
}

/// The store after the image under the cursor was served.
pub open spec fn served(v: StoreView) -> StoreView {
    StoreView { cursor: v.cursor + 1, ..v }
}

/// The store after `n` images were served one after another.
pub open spec fn served_times(v: StoreView, n: nat) -> StoreView
    decreases n,
{
    if n == 0 {
        v
    } else {
        served(served_times(v, (n - 1) as nat))
    }
}

/// What the remote branch does next.
#[derive(Debug)]
pub enum RemoteStep {
    /// Ask the search service for a new batch.
    Fetch,
    /// Make sure this image is on disk, then take it.
    Download(OnlineImage),
    /// Serve nothing in this run.
    Unavailable,
}

/// The persisted state of the remote branch: the current batch, the index
/// of the next image to serve, and whether a refill is owed.
#[derive(Debug)]
pub struct ImageData {
    pub urls: Vec<OnlineImage>,
    pub current_index: usize,
    pub needs_downloading: bool,
}

impl View for ImageData {
    type V = StoreView;

    open spec fn view(&self) -> StoreView {
        StoreView {
            items: self.urls@,
            cursor: self.current_index as int,
            needs_refill: self.needs_downloading,
        }
    }
}

impl ImageData {
    /// The cursor stands within the batch or just after it.
    pub open spec fn wf(&self) -> bool {
        self.current_index <= self.urls@.len()
    }

    /// The store of a first run: no batch, and nothing owed.
    pub fn new() -> (r: ImageData)
        ensures
            r@ == (StoreView { items: Seq::empty(), cursor: 0, needs_refill: false }),
            r.wf(),
    {
        ImageData { urls: Vec::new(), current_index: 0, needs_downloading: false }
    }

    /// The first step of the remote branch: a new batch when one is owed or
    /// the batch is used up, else the image under the cursor.
    pub fn begin(&self) -> (r: RemoteStep)
        ensures
            refill_due(self@) ==> r is Fetch,
            !refill_due(self@) ==> r == RemoteStep::Download(
                self.urls@[self.current_index as int],
            ),
    {
        if self.needs_downloading || self.current_index >= self.urls.len() {
            RemoteStep::Fetch
        } else {
            RemoteStep::Download(self.urls[self.current_index].duplicate())
        }
    }

    /// The files of the current batch, to delete before a new batch takes
    /// its place.
    pub fn cached_paths(&self, paths: &Paths) -> (r: Vec<String>)
        ensures
            r@.len() == self.urls@.len(),
            forall|i: int|
                0 <= i < r@.len() ==> #[trigger] r@[i]@ == join(
                    join(paths.base_dir@, "pictures"@),
                    download_file_name(self.urls@[i].id@),
                ),
    {
        let mut r: Vec<String> = Vec::new();
        let mut i: usize = 0;
        while i < self.urls.len()
            invariant
                i <= self.urls@.len(),
                r@.len() == i,
                forall|k: int|
                    0 <= k < i ==> #[trigger] r@[k]@ == join(
                        join(paths.base_dir@, "pictures"@),
                        download_file_name(self.urls@[k].id@),
                    ),
            decreases self.urls@.len() - i,
        {
            r.push(self.urls[i].get_path(paths));
            i = i + 1;
        }
        r
    }

    /// Takes the outcome of a search: a new batch replaces the old one, with
    /// the cursor at its start and nothing owed, and its first image is next;
    /// a failed search leaves the batch and marks a refill as owed, and the
    /// branch serves nothing in this run.
    pub fn after_fetch(&mut self, fetched: Option<Vec<OnlineImage>>) -> (r: RemoteStep)
        ensures
            fetched is Some ==> final(self)@ == refilled(fetched.unwrap()@),
            fetched is Some && fetched.unwrap()@.len() > 0 ==> r == RemoteStep::Download(
                fetched.unwrap()@[0],
            ),
            fetched is Some && fetched.unwrap()@.len() == 0 ==> r is Unavailable,
            fetched is None ==> final(self)@ == refill_failed(old(self)@),
            fetched is None ==> r is Unavailable,
            old(self).wf() || fetched is Some ==> final(self).wf(),
    {
        match fetched {
            Some(batch) => {
                self.urls = batch;
                self.current_index = 0;
                self.needs_downloading = false;
                if self.urls.len() > 0 {
                    RemoteStep::Download(self.urls[0].duplicate())
                } else {
                    RemoteStep::Unavailable
                }
            },
            None => {
                self.needs_downloading = true;
                RemoteStep::Unavailable
            },
        }
    }

    /// Serves the image under the cursor, once it is on disk, and moves the
    /// cursor past it.
    pub fn advance(&mut self) -> (r: OnlineImage)
        requires
            old(self).current_index < old(self).urls@.len(),
        ensures
            r == old(self).urls@[old(self).current_index as int],
            final(self)@ == served(old(self)@),
            final(self).wf(),
    {
        let n = self.urls.len();
        let r = self.urls[self.current_index].duplicate();
        assert(self.current_index < n);
        self.current_index = self.current_index + 1;
        r
    }
}

/// Serving `n` images of a fresh batch of at least `n` leaves the cursor at
/// `n`; no refill is due until the whole batch is served, and one is due then.
pub proof fn lemma_cursor_counts_served(batch: Seq<OnlineImage>, n: nat)
    requires
        n <= batch.len(),
    ensures
        served_times(refilled(batch), n).cursor == n,
        served_times(refilled(batch), n).items == batch,
        !served_times(refilled(batch), n).needs_refill,
        refill_due(served_times(refilled(batch), n)) <==> n == batch.len(),
    decreases n,
{
    if n > 0 {
        lemma_cursor_counts_served(batch, (n - 1) as nat);
    }
}

/// From an empty store, a search that yields three images makes the first
/// run take the first of them and leave the cursor at 1 with nothing owed;
/// after two more runs the batch is used up and the fourth run asks for a
/// new batch.
pub proof fn lemma_fresh_batch_of_three(batch: Seq<OnlineImage>)
    requires
        batch.len() == 3,
    ensures
        refill_due(StoreView { items: Seq::empty(), cursor: 0, needs_refill: false }),
        served(refilled(batch)) == (StoreView { items: batch, cursor: 1, needs_refill: false }),
        !refill_due(served(refilled(batch))),
        !refill_due(served(served(refilled(batch)))),
        refill_due(served(served(served(refilled(batch))))),
{
    lemma_cursor_counts_served(batch, 3);
    reveal_with_fuel(served_times, 4);
}

} // verus!
