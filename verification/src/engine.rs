//! The engine control state of a file-backed storage backend: the decisions
//! of the snapshot/compaction protocol, kept apart from the file handling
//! that carries them out.
//!
//! A backend drives one `Engine` value alongside its file: `open_plan` on
//! open, `note_loaded` after a load, `note_closed` / `note_snapshot_installed`
//! / `note_opened` around the atomic snapshot swap, and `needs_compaction` /
//! `note_appended` on every transaction write.

use vstd::prelude::*;

verus! {

/// How many log entries may accumulate before the next `store_data` call
/// must compact: without periodic compaction the log grows without bound,
/// and this bounds replay cost on restart.
pub const COMPACTION_THRESHOLD: u64 = 16;

/// What a backend must do when it is opened on a pair of paths.
pub enum OpenPlan {
    /// Neither the main file nor the temporary file exists: a fresh store,
    /// with no file to open yet.
    StartFresh,
    /// Only the temporary file exists: a crash interrupted a prior
    /// compaction after the temporary snapshot was durably written but
    /// before it was renamed into place. Recovery renames the temporary
    /// file onto the main path, then opens it.
    RecoverTemp,
    /// The main file exists and is opened for read/append.
    OpenExisting,
}

/// The recovery decision made at open time, from whether the main and the
/// temporary file exist.
pub fn open_plan(main_exists: bool, temp_exists: bool) -> (r: OpenPlan)
    ensures
        !main_exists && !temp_exists ==> r is StartFresh,
        !main_exists && temp_exists ==> r is RecoverTemp,
        main_exists ==> r is OpenExisting,
{
    if main_exists {
        OpenPlan::OpenExisting
    } else if temp_exists {
        OpenPlan::RecoverTemp
    } else {
        OpenPlan::StartFresh
    }
}

/// The control state of a file-backed storage backend: whether a file handle
/// is currently open, whether the next persist must force a compaction
/// (true until the first successful snapshot write), and how many log
/// entries follow the snapshot on disk.
pub struct Engine {
    /// Whether the backend currently holds an open handle on the main file.
    pub file_open: bool,
    /// Whether the next `store_data` must write a snapshot regardless of the
    /// entry count; set until the first snapshot is durably installed.
    pub needs_initial_compact: bool,
    /// The number of log-entry chunks physically present after the snapshot.
    pub transaction_count: u64,
}

/// Whether a `store_data` call on this state must compact rather than
/// append: there is no open file, no snapshot was ever installed, or the
/// pending-entry counter has reached the threshold.
pub open spec fn spec_needs_compaction(e: Engine) -> bool {
    !e.file_open || e.needs_initial_compact || e.transaction_count >= COMPACTION_THRESHOLD
}

/// The state right after a successful snapshot write: the file is open, the
/// initial compaction is done, and the log is empty.
pub open spec fn spec_post_snapshot(e: Engine) -> bool {
    e.file_open && !e.needs_initial_compact && e.transaction_count == 0
}

/// One successful `store_data` call, seen from the control state alone: a
/// call that must compact leaves the post-snapshot state, any other call
/// appends one entry.
pub open spec fn spec_store_data_step(e: Engine) -> Engine {
    if spec_needs_compaction(e) {
        Engine { file_open: true, needs_initial_compact: false, transaction_count: 0 }
    } else {
        Engine { transaction_count: (e.transaction_count + 1) as u64, ..e }
    }
}

/// `n` successful `store_data` calls in a row.
pub open spec fn spec_run_store_data(e: Engine, n: nat) -> Engine
    decreases n,
{
    if n == 0 {
        e
    } else {
        spec_store_data_step(spec_run_store_data(e, (n - 1) as nat))
    }
}

impl Engine {
    /// The state of a backend that has not opened any file yet.
    pub fn new() -> (r: Engine)
        ensures
            r.file_open == false,
            r.needs_initial_compact == true,
            r.transaction_count == 0,
    {
        Engine { file_open: false, needs_initial_compact: true, transaction_count: 0 }
    }

    /// Records that the main file has been opened for read/append.
    pub fn note_opened(&mut self)
        ensures
            final(self).file_open == true,
            final(self).needs_initial_compact == old(self).needs_initial_compact,
            final(self).transaction_count == old(self).transaction_count,
    {
        self.file_open = true;
    }

    /// Records that the handle on the main file was closed, as it must be
    /// before the filesystem swap of a compaction.
    pub fn note_closed(&mut self)
        ensures
            final(self).file_open == false,
            final(self).needs_initial_compact == old(self).needs_initial_compact,
            final(self).transaction_count == old(self).transaction_count,
    {
        self.file_open = false;
    }

    /// Records that a fresh snapshot was renamed onto the main path: the log
    /// is empty again and no initial compaction is owed any more.
    pub fn note_snapshot_installed(&mut self)
        ensures
            final(self).file_open == old(self).file_open,
            final(self).needs_initial_compact == false,
            final(self).transaction_count == 0,
    {
        self.needs_initial_compact = false;
        self.transaction_count = 0;
    }

    /// Records how many intact log entries a load found after the snapshot.
    pub fn note_loaded(&mut self, count: u64)
        ensures
            final(self).file_open == old(self).file_open,
            final(self).needs_initial_compact == old(self).needs_initial_compact,
            final(self).transaction_count == count,
    {
        self.transaction_count = count;
    }

    /// Records that one log entry was durably appended.
    pub fn note_appended(&mut self)
        requires
            old(self).transaction_count < u64::MAX,
        ensures
            final(self).file_open == old(self).file_open,
            final(self).needs_initial_compact == old(self).needs_initial_compact,
            final(self).transaction_count == old(self).transaction_count + 1,
    {
        self.transaction_count = self.transaction_count + 1;
    }

    /// Whether the next `store_data` call must compact rather than append.
    pub fn needs_compaction(&self) -> (r: bool)
        ensures
            r == spec_needs_compaction(*self),
    {
        !self.file_open || self.needs_initial_compact || self.transaction_count
            >= COMPACTION_THRESHOLD
    }
}

/// After a snapshot, the first `n` successful `store_data` calls, `n` up to
/// the threshold, all append: the log then holds exactly `n` entries.
pub proof fn lemma_appends_accumulate(e: Engine, n: nat)
    requires
        spec_post_snapshot(e),
        n <= COMPACTION_THRESHOLD,
    ensures
        spec_run_store_data(e, n) == (Engine {
            file_open: true,
            needs_initial_compact: false,
            transaction_count: n as u64,
        }),
    decreases n,
{
    if n > 0 {
        lemma_appends_accumulate(e, (n - 1) as nat);
    }
}

/// The compaction trigger: starting right after a snapshot, none of the
/// first sixteen successful `store_data` calls compacts, and the
/// seventeenth call must compact, leaving the post-snapshot state again.
pub proof fn lemma_compaction_trigger(e: Engine)
    requires
        spec_post_snapshot(e),
    ensures
        forall|n: nat|
            n < COMPACTION_THRESHOLD ==> !spec_needs_compaction(
                #[trigger] spec_run_store_data(e, n),
            ),
        spec_needs_compaction(spec_run_store_data(e, COMPACTION_THRESHOLD as nat)),
        spec_post_snapshot(spec_run_store_data(e, (COMPACTION_THRESHOLD + 1) as nat)),
{
    assert forall|n: nat| n < COMPACTION_THRESHOLD implies !spec_needs_compaction(
        #[trigger] spec_run_store_data(e, n),
    ) by {
        lemma_appends_accumulate(e, n);
    }
    lemma_appends_accumulate(e, COMPACTION_THRESHOLD as nat);
}

} // verus!
