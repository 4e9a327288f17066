//! The screen that syncs every language pair after a login: one status row
//! per pair, filled in as the run reports progress.
use vstd::prelude::*;

use crate::profile::LanguagePair;
use crate::text::{copy_str, push_str, str_eq};

verus! {

/// How one pair of the run went.
#[derive(Debug, Clone)]
pub enum PairSyncStatus {
    Running,
    /// Synced by a plain push or pull.
    Done,
    /// A curriculum conflict was merged: the topics merged, those kept
    /// from this device only and those taken from the cloud only.
    Merged { topics_merged: usize, topics_local_only: usize, topics_cloud_only: usize },
    Failed(String),
    Unauthorized,
    /// The user interrupted the run before the pair finished.
    Cancelled,
}

/// One status row: the pair, its title and its status (`None` while it
/// waits for its turn).
#[derive(Debug, Clone)]
pub struct PairSyncRow {
    pub pair_id: String,
    pub title: String,
    pub status: Option<PairSyncStatus>,
}

/// A pair's row title: "native → target".
pub open spec fn pair_title(p: LanguagePair) -> Seq<char> {
    p.profile.native_language@ + " → "@ + p.profile.target_language@
}

/// The rows of a run over `pairs`: one per pair, in order, all waiting.
pub fn seed_rows(pairs: &[LanguagePair]) -> (r: Vec<PairSyncRow>)
    ensures
        r@.len() == pairs@.len(),
        forall|i: int|
            0 <= i < r@.len() ==> (#[trigger] r@[i]).pair_id@ == pairs@[i].id@ && r@[i].title@
                == pair_title(pairs@[i]) && r@[i].status is None,
{
    let mut r: Vec<PairSyncRow> = Vec::new();
    let mut i: usize = 0;
    while i < pairs.len()
        invariant
            i <= pairs@.len(),
            r@.len() == i,
            forall|k: int|
                0 <= k < i ==> (#[trigger] r@[k]).pair_id@ == pairs@[k].id@ && r@[k].title@
                    == pair_title(pairs@[k]) && r@[k].status is None,
        decreases pairs@.len() - i,
    {
        let p = &pairs[i];
        let mut title = String::new();
        push_str(&mut title, p.profile.native_language.as_str());
        push_str(&mut title, " → ");
        push_str(&mut title, p.profile.target_language.as_str());
        r.push(PairSyncRow { pair_id: copy_str(p.id.as_str()), title, status: None });
        i = i + 1;
    }
    r
}

/// Records the progress of the pair `pair_id` in its first row; rows of
/// other pairs, and a run without such a row, stay as they were.
pub fn apply_progress(rows: &mut Vec<PairSyncRow>, pair_id: &str, status: PairSyncStatus)
    ensures
        final(rows)@.len() == old(rows)@.len(),
        (forall|k: int| 0 <= k < old(rows)@.len() ==> old(rows)@[k].pair_id@ != pair_id@) ==> final(rows)@
            == old(rows)@,
        forall|i: int|
            0 <= i < old(rows)@.len() && old(rows)@[i].pair_id@ == pair_id@ && (forall|k: int|
                0 <= k < i ==> old(rows)@[k].pair_id@ != pair_id@) ==> final(rows)@ == old(rows)@.update(
                i,
                (PairSyncRow {
                    pair_id: old(rows)@[i].pair_id,
                    title: old(rows)@[i].title,
                    status: Some(status),
                }),
            ),
{
    let mut i: usize = 0;
    while i < rows.len()
        invariant
            i <= rows@.len(),
            rows@ == old(rows)@,
            forall|k: int| 0 <= k < i ==> rows@[k].pair_id@ != pair_id@,
        decreases rows@.len() - i,
    {
        if str_eq(rows[i].pair_id.as_str(), pair_id) {
            let row = rows.remove(i);
            let updated = PairSyncRow { pair_id: row.pair_id, title: row.title, status: Some(status) };
            rows.insert(i, updated);
            assert forall|j: int|
                0 <= j < old(rows)@.len() && old(rows)@[j].pair_id@ == pair_id@ && (forall|k: int|
                    0 <= k < j ==> old(rows)@[k].pair_id@ != pair_id@) implies j == i by {
                if j < i {
                } else if j > i {
                    assert(old(rows)@[i as int].pair_id@ == pair_id@);
                }
            }
            return;
        }
        i = i + 1;
    }
}

/// Whether a row's pair has not finished: it waits or is running.
pub open spec fn unfinished(status: Option<PairSyncStatus>) -> bool {
    match status {
        None => true,
        Some(PairSyncStatus::Running) => true,
        _ => false,
    }
}

/// Marks every unfinished row cancelled when the user interrupts the run;
/// finished rows keep their outcome.
pub fn cancel_unfinished(rows: &mut Vec<PairSyncRow>)
    ensures
        final(rows)@.len() == old(rows)@.len(),
        forall|i: int|
            0 <= i < final(rows)@.len() ==> (#[trigger] final(rows)@[i]).pair_id == old(rows)@[i].pair_id
                && final(rows)@[i].title == old(rows)@[i].title && final(rows)@[i].status == if unfinished(
                old(rows)@[i].status,
            ) {
                Some(PairSyncStatus::Cancelled)
            } else {
                old(rows)@[i].status
            },
{
    let mut i: usize = 0;
    while i < rows.len()
        invariant
            i <= rows@.len(),
            rows@.len() == old(rows)@.len(),
            forall|k: int|
                0 <= k < i ==> (#[trigger] rows@[k]).pair_id == old(rows)@[k].pair_id && rows@[k].title
                    == old(rows)@[k].title && rows@[k].status == if unfinished(old(rows)@[k].status) {
                    Some(PairSyncStatus::Cancelled)
                } else {
                    old(rows)@[k].status
                },
            forall|k: int| i <= k < rows@.len() ==> rows@[k] == old(rows)@[k],
        decreases rows@.len() - i,
    {
        let pending = match &rows[i].status {
            None => true,
            Some(PairSyncStatus::Running) => true,
            _ => false,
        };
        if pending {
            let row = rows.remove(i);
            rows.insert(
                i,
                PairSyncRow {
                    pair_id: row.pair_id,
                    title: row.title,
                    status: Some(PairSyncStatus::Cancelled),
                },
            );
        }
        i = i + 1;
    }
}

/// How a finished run ended, for its summary line.
#[derive(Debug, Clone, Copy, PartialEq, Eq, Structural)]
pub enum SyncAllOutcome {
    /// The user interrupted it.
    Cancelled,
    /// Every pair synced.
    AllSynced,
    /// This many pairs did not sync.
    Failed(usize),
}

/// The outcome of a finished run with `failed` pairs that did not sync.
pub fn sync_all_outcome(failed: usize, cancelled: bool) -> (r: SyncAllOutcome)
    ensures
        r == (if cancelled {
            SyncAllOutcome::Cancelled
        } else if failed == 0 {
            SyncAllOutcome::AllSynced
        } else {
            SyncAllOutcome::Failed(failed)
        }),
{
    if cancelled {
        SyncAllOutcome::Cancelled
    } else if failed == 0 {
        SyncAllOutcome::AllSynced
    } else {
        SyncAllOutcome::Failed(failed)
    }
}

/// Whether the summary of an outcome is shown as an error: when the run
/// was interrupted or a pair failed.
pub fn outcome_is_error(outcome: SyncAllOutcome) -> (r: bool)
    ensures
        r == !(outcome == SyncAllOutcome::AllSynced),
{
    match outcome {
        SyncAllOutcome::AllSynced => false,
        _ => true,
    }
}

/// The marker in front of a row: a dot while waiting, the spinner while
/// running, a check mark when synced or merged, a cross when it failed or
/// was refused, a dash when cancelled.
pub fn row_marker(status: &Option<PairSyncStatus>, spinner: &'static str) -> (r: &'static str)
    ensures
        r@ == match status {
            None => "·"@,
            Some(PairSyncStatus::Running) => spinner@,
            Some(PairSyncStatus::Done) => "✓"@,
            Some(PairSyncStatus::Merged { .. }) => "✓"@,
            Some(PairSyncStatus::Failed(_)) => "✗"@,
            Some(PairSyncStatus::Unauthorized) => "✗"@,
            Some(PairSyncStatus::Cancelled) => "–"@,
        },
{
    match status {
        None => "·",
        Some(PairSyncStatus::Running) => spinner,
        Some(PairSyncStatus::Done) => "✓",
        Some(PairSyncStatus::Merged { .. }) => "✓",
        Some(PairSyncStatus::Failed(_)) => "✗",
        Some(PairSyncStatus::Unauthorized) => "✗",
        Some(PairSyncStatus::Cancelled) => "–",
    }
}

/// Whether a pair's result counts among the failures of a run: it failed
/// or its login was refused.
pub fn counts_as_failed(status: &PairSyncStatus) -> (r: bool)
    ensures
        r == (status is Failed || status is Unauthorized),
{
    match status {
        PairSyncStatus::Failed(_) | PairSyncStatus::Unauthorized => true,
        _ => false,
    }
}

/// How the task of a run ended.
#[derive(Debug, Clone, Copy, PartialEq, Eq, Structural)]
pub enum SyncAllEnd {
    /// It went through every pair; this many failed.
    Finished(usize),
    /// The user interrupted it.
    Cancelled,
    /// It broke down while on the pair at `index`.
    Crashed { index: usize },
}

/// The number of failed pairs of a run of `total` pairs and whether it was
/// interrupted: a finished run reports its own count; an interrupted one
/// none; one that broke down counts the pair it was on and every later
/// pair as failed.
pub fn sync_all_totals(end: SyncAllEnd, total: usize) -> (r: (usize, bool))
    ensures
        r == match end {
            SyncAllEnd::Finished(failed) => (failed, false),
            SyncAllEnd::Cancelled => (0usize, true),
            SyncAllEnd::Crashed { index } => (if index <= total { (total - index) as usize } else { 0usize }, false),
        },
{
    match end {
        SyncAllEnd::Finished(failed) => (failed, false),
        SyncAllEnd::Cancelled => (0, true),
        SyncAllEnd::Crashed { index } => (total.saturating_sub(index), false),
    }
}

} // verus!
