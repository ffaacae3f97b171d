//! The task registry: one record per running archive download, keyed by
//! task id, with a cancellation flag per task. The embedding program wraps
//! one `DownloadManager` in its mutex; every operation here is O(n) over a
//! handful of tasks and mutates nothing outside the registry.

use crate::bytes::copy_bytes;
use vstd::prelude::*;

verus! {

/// A download task's lifecycle status. Once terminal (`Paused`,
/// `Completed`, `Error`) a task is never resurrected: a new download gets a
/// new id.
#[derive(Clone, Copy, Debug, PartialEq, Eq, Structural)]
pub enum TaskStatus {
    Queued,
    Downloading,
    Paused,
    Completed,
    Error,
}

impl TaskStatus {
    /// The statuses a task never leaves.
    pub open spec fn is_terminal(self) -> bool {
        self == TaskStatus::Paused || self == TaskStatus::Completed || self == TaskStatus::Error
    }
}

/// The user-visible record of one download task.
pub struct DownloadItem {
    /// Task id; unique per registry.
    pub id: Vec<u8>,
    /// The archive being downloaded.
    pub archive_id: Vec<u8>,
    /// The sanitized output name.
    pub name: Vec<u8>,
    /// Ciphertext bytes downloaded so far.
    pub downloaded: u64,
    /// Expected total, when the manifest gives one.
    pub total: Option<u64>,
    /// Lifecycle status.
    pub status: TaskStatus,
}

impl DownloadItem {
    /// Field-wise equality over the views.
    pub open spec fn like(self, o: DownloadItem) -> bool {
        &&& self.id@ == o.id@
        &&& self.archive_id@ == o.archive_id@
        &&& self.name@ == o.name@
        &&& self.downloaded == o.downloaded
        &&& self.total == o.total
        &&& self.status == o.status
    }

    /// A fresh copy of the record.
    pub fn clone_item(&self) -> (r: DownloadItem)
        ensures
            r.like(*self),
    {
        DownloadItem {
            id: copy_bytes(self.id.as_slice()),
            archive_id: copy_bytes(self.archive_id.as_slice()),
            name: copy_bytes(self.name.as_slice()),
            downloaded: self.downloaded,
            total: self.total,
            status: self.status,
        }
    }
}

/// One registry entry: the record plus the task's cancellation flag.
pub struct DownloadTask {
    /// The user-visible record.
    pub item: DownloadItem,
    /// Set by `pause_download`; the driver observes it and transitions the
    /// task to `Paused`.
    pub cancel: bool,
}

/// The task with only its status changed.
pub open spec fn with_status(t: DownloadTask, status: TaskStatus) -> DownloadTask {
    DownloadTask { item: DownloadItem { status, ..t.item }, ..t }
}

/// The task with only its cancel flag set.
pub open spec fn with_cancel(t: DownloadTask) -> DownloadTask {
    DownloadTask { cancel: true, ..t }
}

/// The process-wide registry of download tasks.
pub struct DownloadManager {
    tasks: Vec<DownloadTask>,
}

impl DownloadManager {
    /// The registry's entries, in insertion order.
    pub closed spec fn tasks_seq(self) -> Seq<DownloadTask> {
        self.tasks@
    }

    /// True iff an entry with this id is present.
    pub open spec fn contains_id(self, id: Seq<u8>) -> bool {
        exists|j: int| 0 <= j < self.tasks_seq().len() && self.tasks_seq()[j].item.id@ == id
    }

    /// Task ids are unique.
    pub open spec fn wf(self) -> bool {
        forall|i: int, j: int|
            0 <= i < j < self.tasks_seq().len() ==> self.tasks_seq()[i].item.id@
                != self.tasks_seq()[j].item.id@
    }

    /// An empty registry.
    pub fn new() -> (r: Self)
        ensures
            r.tasks_seq() == Seq::<DownloadTask>::empty(),
            r.wf(),
    {
        DownloadManager { tasks: Vec::new() }
    }

    /// The position of the entry with this id, when one exists.
    #[verifier::loop_isolation(false)]
    fn find(&self, id: &[u8]) -> (r: Option<usize>)
        ensures
            match r {
                Some(j) => j < self.tasks_seq().len() && self.tasks_seq()[j as int].item.id@ == id@,
                None => !self.contains_id(id@),
            },
    {
        let mut i: usize = 0;
        while i < self.tasks.len()
            invariant
                i <= self.tasks@.len(),
                forall|k: int| 0 <= k < i ==> self.tasks@[k].item.id@ != id@,
            decreases self.tasks@.len() - i,
        {
            if crate::bytes::bytes_eq(self.tasks[i].item.id.as_slice(), id) {
                return Some(i);
            }
            i = i + 1;
        }
        None
    }

    /// Registers a new task, not yet cancelled. The caller supplies a fresh
    /// id; ids are unique in the registry.
    pub fn insert(&mut self, item: DownloadItem)
        requires
            old(self).wf(),
            !old(self).contains_id(item.id@),
        ensures
            final(self).wf(),
            final(self).tasks_seq() == old(self).tasks_seq().push(
                (DownloadTask { item, cancel: false }),
            ),
    {
        self.tasks.push(DownloadTask { item, cancel: false });
    }

    /// Requests cancellation of one task: sets its flag and changes nothing
    /// else. The driver later observes the flag and emits `Paused`.
    pub fn pause_download(&mut self, id: &[u8])
        requires
            old(self).wf(),
        ensures
            final(self).wf(),
            final(self).tasks_seq().len() == old(self).tasks_seq().len(),
            forall|j: int|
                0 <= j < old(self).tasks_seq().len() ==> final(self).tasks_seq()[j] == (
                if old(self).tasks_seq()[j].item.id@ == id@ {
                    with_cancel(old(self).tasks_seq()[j])
                } else {
                    old(self).tasks_seq()[j]
                }),
    {
        let found = self.find(id);
        if let Some(j) = found {
            self.tasks[j].cancel = true;
        }
    }

    /// Sets one task's status and changes nothing else.
    pub fn update_status(&mut self, id: &[u8], status: TaskStatus)
        requires
            old(self).wf(),
        ensures
            final(self).wf(),
            final(self).tasks_seq().len() == old(self).tasks_seq().len(),
            forall|j: int|
                0 <= j < old(self).tasks_seq().len() ==> final(self).tasks_seq()[j] == (
                if old(self).tasks_seq()[j].item.id@ == id@ {
                    with_status(old(self).tasks_seq()[j], status)
                } else {
                    old(self).tasks_seq()[j]
                }),
    {
        let found = self.find(id);
        if let Some(j) = found {
            self.tasks[j].item.status = status;
        }
    }

    /// True iff a cancellation request is pending for this id.
    pub fn cancel_requested(&self, id: &[u8]) -> (r: bool)
        requires
            self.wf(),
        ensures
            r == exists|j: int|
                0 <= j < self.tasks_seq().len() && self.tasks_seq()[j].item.id@ == id@
                    && self.tasks_seq()[j].cancel,
    {
        let found = self.find(id);
        if let Some(j) = found {
            let c = self.tasks[j].cancel;
            proof {
                if !c {
                    assert forall|k: int|
                        0 <= k < self.tasks_seq().len() && self.tasks_seq()[k].item.id@ == id@
                            implies !self.tasks_seq()[k].cancel by {
                        assert(k == j as int);
                    }
                }
            }
            c
        } else {
            false
        }
    }

    /// A snapshot of every task's record, in insertion order.
    #[verifier::loop_isolation(false)]
    pub fn list_downloads(&self) -> (r: Vec<DownloadItem>)
        ensures
            r@.len() == self.tasks_seq().len(),
            forall|j: int| 0 <= j < r@.len() ==> r@[j].like(self.tasks_seq()[j].item),
    {
        let mut out: Vec<DownloadItem> = Vec::new();
        let mut i: usize = 0;
        while i < self.tasks.len()
            invariant
                i <= self.tasks@.len(),
                out@.len() == i,
                forall|j: int| 0 <= j < i ==> out@[j].like(self.tasks@[j].item),
            decreases self.tasks@.len() - i,
        {
            let item = self.tasks[i].item.clone_item();
            out.push(item);
            i = i + 1;
        }
        out
    }
}

} // verus!
