//! Accounting for "delete all but the first" on a duplicate group.
use crate::models::{DuplicateGroup, FileEntry};
use vstd::prelude::*;

verus! {

/// What happened to one non-survivor member: its size where it could be read
/// before the attempt, whether it was deleted, and why not where it was not.
#[derive(Clone, Debug)]
pub struct DeleteOutcome {
    pub size: Option<u64>,
    pub deleted: bool,
    pub reason: String,
}

/// A member that could not be deleted, and why.
#[derive(Clone, Debug)]
pub struct CleanupFailure {
    pub path: String,
    pub reason: String,
}

/// The totals of one cleanup.
#[derive(Debug)]
pub struct CleanupReport {
    pub deleted_count: usize,
    pub reclaimed_bytes: u64,
    pub failures: Vec<CleanupFailure>,
}

/// How many of the first `n` outcomes are deletions.
pub open spec fn deleted_upto(outs: Seq<DeleteOutcome>, n: int) -> nat
    decreases n,
{
    if n <= 0 {
        0
    } else {
        deleted_upto(outs, n - 1) + if outs[n - 1].deleted {
            1nat
        } else {
            0nat
        }
    }
}

/// The recorded bytes of the deleted members among the first `n` outcomes; an
/// unknown size counts as zero.
pub open spec fn reclaimed_upto(outs: Seq<DeleteOutcome>, n: int) -> nat
    decreases n,
{
    if n <= 0 {
        0
    } else {
        reclaimed_upto(outs, n - 1) + if outs[n - 1].deleted && outs[n - 1].size is Some {
            outs[n - 1].size->0 as nat
        } else {
            0nat
        }
    }
}

/// The members (`members[1..]`, matched with `outs` by position) among the
/// first `n` whose deletion failed, in order.
pub open spec fn kept_upto(members: Seq<FileEntry>, outs: Seq<DeleteOutcome>, n: int) -> Seq<
    FileEntry,
>
    decreases n,
{
    if n <= 0 {
        Seq::empty()
    } else if outs[n - 1].deleted {
        kept_upto(members, outs, n - 1)
    } else {
        kept_upto(members, outs, n - 1).push(members[n])
    }
}

/// The (path, reason) pairs of the failed deletions among the first `n`.
pub open spec fn failures_upto(members: Seq<FileEntry>, outs: Seq<DeleteOutcome>, n: int) -> Seq<
    (Seq<char>, Seq<char>),
>
    decreases n,
{
    if n <= 0 {
        Seq::empty()
    } else if outs[n - 1].deleted {
        failures_upto(members, outs, n - 1)
    } else {
        failures_upto(members, outs, n - 1).push((members[n].path@, outs[n - 1].reason@))
    }
}

proof fn lemma_upto_bounded(outs: Seq<DeleteOutcome>, n: int, m: int)
    requires
        0 <= n <= m,
    ensures
        reclaimed_upto(outs, n) <= reclaimed_upto(outs, m),
        deleted_upto(outs, n) <= deleted_upto(outs, m),
        deleted_upto(outs, m) <= m,
    decreases m,
{
    if m > 0 {
        let n1 = if n < m {
            n
        } else {
            m - 1
        };
        lemma_upto_bounded(outs, n1, m - 1);
    }
}

/// Totals the deletion of `group.files[1..]`, given what happened to each of
/// them (`outcomes[i]` belongs to `group.files[i + 1]`). The survivor
/// `files[0]` is never deleted. The returned group holds the survivor and the
/// members whose deletion failed.
pub fn apply_cleanup(group: &DuplicateGroup, outcomes: &Vec<DeleteOutcome>) -> (r: (
    CleanupReport,
    DuplicateGroup,
))
    requires
        group.files@.len() >= 2,
        outcomes@.len() == group.files@.len() - 1,
        reclaimed_upto(outcomes@, outcomes@.len() as int) <= u64::MAX,
    ensures
        r.0.deleted_count == deleted_upto(outcomes@, outcomes@.len() as int),
        r.0.reclaimed_bytes == reclaimed_upto(outcomes@, outcomes@.len() as int),
        r.0.failures@.len() == failures_upto(group.files@, outcomes@, outcomes@.len() as int).len(),
        forall|i: int|
            0 <= i < r.0.failures@.len() ==> (#[trigger] r.0.failures@[i].path@, r.0.failures@[i].reason@)
                == failures_upto(group.files@, outcomes@, outcomes@.len() as int)[i],
        r.1.hash == group.hash,
        r.1.files@ == seq![group.files@[0]] + kept_upto(
            group.files@,
            outcomes@,
            outcomes@.len() as int,
        ),
{
    let mut deleted_count: usize = 0;
    let mut reclaimed_bytes: u64 = 0;
    let mut failures: Vec<CleanupFailure> = Vec::new();
    let mut kept: Vec<FileEntry> = Vec::new();
    kept.push(group.files[0].duplicate());
    let mut i: usize = 0;
    while i < outcomes.len()
        invariant
            i <= outcomes@.len(),
            outcomes@.len() == group.files@.len() - 1,
            reclaimed_upto(outcomes@, outcomes@.len() as int) <= u64::MAX,
            deleted_count == deleted_upto(outcomes@, i as int),
            reclaimed_bytes == reclaimed_upto(outcomes@, i as int),
            failures@.len() == failures_upto(group.files@, outcomes@, i as int).len(),
            forall|j: int|
                0 <= j < failures@.len() ==> (#[trigger] failures@[j].path@, failures@[j].reason@)
                    == failures_upto(group.files@, outcomes@, i as int)[j],
            kept@ == seq![group.files@[0]] + kept_upto(group.files@, outcomes@, i as int),
        decreases outcomes@.len() - i,
    {
        proof {
            lemma_upto_bounded(outcomes@, i + 1, outcomes@.len() as int);
            lemma_upto_bounded(outcomes@, i + 1, i + 1);
        }
        let o = &outcomes[i];
        if o.deleted {
            deleted_count = deleted_count + 1;
            if let Some(s) = o.size {
                reclaimed_bytes = reclaimed_bytes + s;
            }
        } else {
            let ghost f0 = failures@;
            let ghost k0 = kept@;
            failures.push(
                CleanupFailure { path: group.files[i + 1].path.clone(), reason: o.reason.clone() },
            );
            kept.push(group.files[i + 1].duplicate());
            assert(kept@ == seq![group.files@[0]] + kept_upto(group.files@, outcomes@, i + 1));
            assert forall|j: int| 0 <= j < failures@.len() implies (
            #[trigger] failures@[j].path@,
            failures@[j].reason@,
            ) == failures_upto(group.files@, outcomes@, i + 1)[j] by {
                if j < f0.len() {
                    assert(failures@[j] == f0[j]);
                }
            }
        }
        i = i + 1;
    }
    let report = CleanupReport { deleted_count, reclaimed_bytes, failures };
    (report, DuplicateGroup { hash: group.hash.clone(), files: kept })
}

} // verus!
