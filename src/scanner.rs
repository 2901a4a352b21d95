//! The size filter over walked entries, and the decisions of a cancellable scan.
use crate::models::{FileEntry, FileSource};
use vstd::prelude::*;

verus! {

/// One entry met while walking a tree: its path, whether it is a regular file,
/// and its byte length where its metadata could be read.
#[derive(Clone, Debug)]
pub struct WalkEntry {
    pub path: String,
    pub is_file: bool,
    pub size: Option<u64>,
}

/// `e` is a regular file whose length is known and at least `min_size`.
pub open spec fn accepts(e: WalkEntry, min_size: u64) -> bool {
    e.is_file && e.size is Some && e.size->0 >= min_size
}

/// The record made of an accepted entry.
pub open spec fn record_of(e: WalkEntry, source: FileSource) -> FileEntry {
    FileEntry { path: e.path, size: e.size->0, hash: None, source }
}

/// The records of the accepted entries of `entries`, in walk order.
pub open spec fn selected(entries: Seq<WalkEntry>, min_size: u64, source: FileSource) -> Seq<
    FileEntry,
>
    decreases entries.len(),
{
    if entries.len() == 0 {
        Seq::empty()
    } else {
        let rest = selected(entries.drop_last(), min_size, source);
        if accepts(entries.last(), min_size) {
            rest.push(record_of(entries.last(), source))
        } else {
            rest
        }
    }
}

/// The record of `e`, if the size filter accepts it.
fn select_one(e: &WalkEntry, min_size: u64, source: FileSource) -> (r: Option<FileEntry>)
    ensures
        accepts(*e, min_size) ==> r == Some(record_of(*e, source)),
        !accepts(*e, min_size) ==> r is None,
{
    match e.size {
        Some(s) if e.is_file && s >= min_size => Some(
            FileEntry { path: e.path.clone(), size: s, hash: None, source },
        ),
        _ => None,
    }
}

/// The candidate records among walked entries: regular files of at least
/// `min_size` bytes whose metadata could be read, in walk order.
pub fn select_files(entries: &Vec<WalkEntry>, min_size: u64, source: FileSource) -> (r: Vec<
    FileEntry,
>)
    ensures
        r@ == selected(entries@, min_size, source),
{
    let mut out: Vec<FileEntry> = Vec::new();
    let mut i: usize = 0;
    while i < entries.len()
        invariant
            i <= entries@.len(),
            out@ == selected(entries@.take(i as int), min_size, source),
        decreases entries@.len() - i,
    {
        assert(entries@.take(i + 1).drop_last() == entries@.take(i as int));
        assert(entries@.take(i + 1).last() == entries@[i as int]);
        if let Some(f) = select_one(&entries[i], min_size, source) {
            out.push(f);
        }
        i = i + 1;
    }
    assert(entries@.take(entries@.len() as int) == entries@);
    out
}

/// Every selected record has at least `min_size` bytes.
pub proof fn lemma_selected_min_size(entries: Seq<WalkEntry>, min_size: u64, source: FileSource)
    ensures
        forall|k: int|
            0 <= k < selected(entries, min_size, source).len() ==> #[trigger] selected(
                entries,
                min_size,
                source,
            )[k].size >= min_size,
    decreases entries.len(),
{
    if entries.len() > 0 {
        lemma_selected_min_size(entries.drop_last(), min_size, source);
    }
}

/// Selection distributes over concatenation of walks.
pub proof fn lemma_selected_append(
    a: Seq<WalkEntry>,
    b: Seq<WalkEntry>,
    min_size: u64,
    source: FileSource,
)
    ensures
        selected(a + b, min_size, source) == selected(a, min_size, source) + selected(
            b,
            min_size,
            source,
        ),
    decreases b.len(),
{
    if b.len() == 0 {
        assert(a + b == a);
    } else {
        assert((a + b).drop_last() == a + b.drop_last());
        assert((a + b).last() == b.last());
        lemma_selected_append(a, b.drop_last(), min_size, source);
    }
}

/// What the scanner tells its driver after each entry.
#[derive(Clone, Copy, Debug, PartialEq, Eq, Structural)]
pub enum ScanAction {
    /// The entry became a candidate; the progress count goes up by one.
    Accepted,
    /// The entry was passed over; the walk goes on.
    Skipped,
    /// Cancellation was seen: the walk ends with what was collected.
    Stop,
}

/// The decisions of a scan over one or more roots. The driver walks the trees
/// and hands over each entry together with the state of the cancel flag.
pub struct Scanner {
    pub min_size: u64,
    pub source: FileSource,
    pub files: Vec<FileEntry>,
    pub cancelled: bool,
    /// The roots that could not be walked at all, in order.
    pub failed_roots: Vec<String>,
    /// Every entry handed over so far, across roots, in order.
    pub seen: Ghost<Seq<WalkEntry>>,
}

impl Scanner {
    /// The collected records are exactly the selection of what was seen.
    pub open spec fn wf(&self) -> bool {
        self.files@ == selected(self.seen@, self.min_size, self.source)
    }

    /// A scanner that has seen nothing.
    pub fn new(min_size: u64, source: FileSource) -> (r: Scanner)
        ensures
            r.wf(),
            r.min_size == min_size,
            r.source == source,
            r.seen@ == Seq::<WalkEntry>::empty(),
            r.failed_roots@.len() == 0,
            !r.cancelled,
    {
        Scanner {
            min_size,
            source,
            files: Vec::new(),
            cancelled: false,
            failed_roots: Vec::new(),
            seen: Ghost(Seq::empty()),
        }
    }

    /// Records that `root` could not be walked at all; the scan goes on with
    /// the other roots and keeps what it has.
    pub fn root_unavailable(&mut self, root: String)
        requires
            old(self).wf(),
        ensures
            final(self).wf(),
            final(self).failed_roots@ == old(self).failed_roots@.push(root),
            final(self).files@ == old(self).files@,
            final(self).seen@ == old(self).seen@,
            final(self).cancelled == old(self).cancelled,
            final(self).min_size == old(self).min_size,
            final(self).source == old(self).source,
    {
        self.failed_roots.push(root);
    }

    /// Takes one walked entry. With `cancel` set the scan stops before the
    /// entry and keeps what it has; otherwise the entry is filtered.
    pub fn observe(&mut self, cancel: bool, entry: WalkEntry) -> (r: ScanAction)
        requires
            old(self).wf(),
            !old(self).cancelled,
        ensures
            final(self).wf(),
            final(self).min_size == old(self).min_size,
            final(self).source == old(self).source,
            final(self).failed_roots@ == old(self).failed_roots@,
            cancel ==> r == ScanAction::Stop && final(self).cancelled && final(self).seen@ == old(
                self,
            ).seen@ && final(self).files@ == old(self).files@,
            !cancel ==> !final(self).cancelled && final(self).seen@ == old(self).seen@.push(entry),
            !cancel && accepts(entry, old(self).min_size) ==> r == ScanAction::Accepted
                && final(self).files@ == old(self).files@.push(record_of(entry, old(self).source)),
            !cancel && !accepts(entry, old(self).min_size) ==> r == ScanAction::Skipped
                && final(self).files@ == old(self).files@,
    {
        if cancel {
            self.cancelled = true;
            return ScanAction::Stop;
        }
        let ghost seen0 = self.seen@;
        self.seen = Ghost(seen0.push(entry));
        assert(self.seen@.drop_last() == seen0);
        match select_one(&entry, self.min_size, self.source) {
            Some(f) => {
                self.files.push(f);
                ScanAction::Accepted
            },
            None => ScanAction::Skipped,
        }
    }

    /// Ends the scan and hands over the collected records.
    pub fn into_files(self) -> (r: Vec<FileEntry>)
        ensures
            r@ == self.files@,
    {
        self.files
    }
}

/// A scan cancelled while walking a second root, after `k` of its entries,
/// returns a prefix of the full candidate list that holds every candidate of
/// the first root and some of the second's.
pub proof fn lemma_cancel_keeps_prefix(
    first: Seq<WalkEntry>,
    second: Seq<WalkEntry>,
    k: int,
    min_size: u64,
    source: FileSource,
)
    requires
        0 <= k <= second.len(),
    ensures
        ({
            let partial = selected(first + second.take(k), min_size, source);
            let full = selected(first + second, min_size, source);
            let done = selected(first, min_size, source);
            &&& partial.len() <= full.len()
            &&& partial == full.take(partial.len() as int)
            &&& done.len() <= partial.len()
            &&& partial.take(done.len() as int) == done
        }),
{
    let done = selected(first, min_size, source);
    let head = selected(second.take(k), min_size, source);
    let tail = selected(second.skip(k), min_size, source);
    assert(second == second.take(k) + second.skip(k));
    lemma_selected_append(second.take(k), second.skip(k), min_size, source);
    lemma_selected_append(first, second.take(k), min_size, source);
    lemma_selected_append(first, second, min_size, source);
    let partial = selected(first + second.take(k), min_size, source);
    let full = selected(first + second, min_size, source);
    assert(partial == done + head);
    assert(full == done + (head + tail));
    assert(full.take(partial.len() as int) == partial);
    assert(partial.take(done.len() as int) == done);
}

} // verus!
