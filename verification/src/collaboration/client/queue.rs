//! A device's local copy of its team's task queue.
//!
//! The queue refuses a second task for a URL it already holds, lets the
//! device claim only queued tasks, and merges the server's list with the
//! tasks the device created but the server has not seen yet. Saving the
//! queue to disk after each change is left to the application.

use crate::collaboration::ids::{now, Timestamp};
use crate::collaboration::types::{Task, TaskStatus};
use vstd::prelude::*;

verus! {

/// Why a queue operation was refused.
#[derive(Clone, Copy, Debug, PartialEq, Eq, Structural)]
pub enum QueueError {
    /// A task for this URL is already queued.
    UrlExists,
    /// No task has this id.
    TaskNotFound,
    /// The task is not in the `Queued` state.
    NotClaimable,
}

/// `i` is the position of the first task with id `id`.
pub open spec fn is_first_with_id(tasks: Seq<Task>, id: u128, i: int) -> bool {
    &&& 0 <= i < tasks.len()
    &&& tasks[i].id == id
    &&& forall|j: int| 0 <= j < i ==> tasks[j].id != id
}

/// The position of the first task with id `id`, if any.
pub open spec fn find_task(tasks: Seq<Task>, id: u128) -> Option<int> {
    if exists|i: int| 0 <= i < tasks.len() && tasks[i].id == id {
        Some(choose|i: int| is_first_with_id(tasks, id, i))
    } else {
        None
    }
}

/// Some task of `tasks` is for `url`.
pub open spec fn has_url(tasks: Seq<Task>, url: Seq<char>) -> bool {
    exists|i: int| 0 <= i < tasks.len() && (#[trigger] tasks[i]).url@ == url
}

/// No two tasks of `tasks` are for the same URL.
pub open spec fn urls_distinct(tasks: Seq<Task>) -> bool {
    forall|i: int, j: int|
        0 <= i < tasks.len() && 0 <= j < tasks.len() && i != j ==> (#[trigger] tasks[i]).url@
            != (#[trigger] tasks[j]).url@
}

/// `task` after this device claimed it at `at`.
pub open spec fn claimed(task: Task, device_id: u128, at: Timestamp) -> Task {
    Task {
        status: TaskStatus::Claimed,
        claimed_by: Some(device_id),
        claimed_at: Some(at),
        progress_at: Some(at),
        ..task
    }
}

/// `task` with its progress set.
pub open spec fn with_progress(task: Task, progress: u64) -> Task {
    Task { progress, ..task }
}

/// `task` completed, with its file.
pub open spec fn completed(task: Task, local_path: String, file_size: u64) -> Task {
    Task { status: TaskStatus::Complete, local_path: Some(local_path), file_size: Some(file_size), ..task }
}

/// `task` back in the queue.
pub open spec fn queued(task: Task) -> Task {
    Task { status: TaskStatus::Queued, ..task }
}

/// The server's list, followed by each local task still `New` whose URL is
/// in neither the server's list nor among the local tasks kept before it.
pub open spec fn merge_spec(server: Seq<Task>, local: Seq<Task>) -> Seq<Task>
    decreases local.len(),
{
    if local.len() == 0 {
        server
    } else {
        let acc = merge_spec(server, local.drop_last());
        let t = local.last();
        if t.status == TaskStatus::New && !has_url(acc, t.url@) {
            acc.push(t)
        } else {
            acc
        }
    }
}

pub proof fn lemma_first_with_id_unique(tasks: Seq<Task>, id: u128, a: int, b: int)
    requires
        is_first_with_id(tasks, id, a),
        is_first_with_id(tasks, id, b),
    ensures
        a == b,
{
}

/// The position of the first task with id `id`.
fn position(tasks: &Vec<Task>, id: u128) -> (r: Option<usize>)
    ensures
        match r {
            Some(i) => find_task(tasks@, id) == Some(i as int) && i < tasks.len(),
            None => find_task(tasks@, id) is None,
        },
{
    let mut i: usize = 0;
    while i < tasks.len()
        invariant
            i <= tasks.len(),
            forall|j: int| 0 <= j < i ==> tasks@[j].id != id,
        decreases tasks.len() - i,
    {
        if tasks[i].id == id {
            proof {
                assert(is_first_with_id(tasks@, id, i as int));
                let c = choose|k: int| is_first_with_id(tasks@, id, k);
                lemma_first_with_id_unique(tasks@, id, i as int, c);
            }
            return Some(i);
        }
        i = i + 1;
    }
    None
}

/// Whether some task is for `url`.
fn contains_url(tasks: &Vec<Task>, url: &String) -> (r: bool)
    ensures
        r == has_url(tasks@, url@),
{
    let mut i: usize = 0;
    while i < tasks.len()
        invariant
            i <= tasks.len(),
            forall|j: int| 0 <= j < i ==> (#[trigger] tasks@[j]).url@ != url@,
        decreases tasks.len() - i,
    {
        if tasks[i].url == *url {
            return true;
        }
        i = i + 1;
    }
    false
}

/// A device's local task queue.
pub struct LocalQueue {
    tasks: Vec<Task>,
    team_id: u128,
    device_id: u128,
}

impl LocalQueue {
    /// The tasks, in queue order.
    pub closed spec fn tasks(&self) -> Seq<Task> {
        self.tasks@
    }

    /// The team the queue belongs to.
    pub closed spec fn team(&self) -> u128 {
        self.team_id
    }

    /// The device that owns this queue.
    pub closed spec fn device(&self) -> u128 {
        self.device_id
    }

    /// An empty queue for `device_id` in `team_id`.
    pub fn new(device_id: u128, team_id: u128) -> (r: LocalQueue)
        ensures
            r.tasks() == Seq::<Task>::empty(),
            r.team() == team_id,
            r.device() == device_id,
    {
        LocalQueue { tasks: Vec::new(), team_id, device_id }
    }

    /// A queue holding `tasks` (as loaded from the saved state).
    pub fn with_tasks(device_id: u128, team_id: u128, tasks: Vec<Task>) -> (r: LocalQueue)
        ensures
            r.tasks() == tasks@,
            r.team() == team_id,
            r.device() == device_id,
    {
        LocalQueue { tasks, team_id, device_id }
    }

    /// Adds a task for `url`, created by this device; refused when a task
    /// for the same URL is already queued.
    pub fn add_task(&mut self, url: &str) -> (r: Result<Task, QueueError>)
        ensures
            final(self).team() == old(self).team(),
            final(self).device() == old(self).device(),
            has_url(old(self).tasks(), url@) ==> r == Err::<Task, QueueError>(QueueError::UrlExists)
                && final(self).tasks() == old(self).tasks(),
            !has_url(old(self).tasks(), url@) ==> (r matches Ok(t) && final(self).tasks() == old(
                self,
            ).tasks().push(t) && t.url@ == url@ && t.status == TaskStatus::New && t.team_id == old(
                self,
            ).team() && t.created_by == old(self).device() && t.claimed_by is None && t.version
                == 1),
            urls_distinct(old(self).tasks()) ==> urls_distinct(final(self).tasks()),
    {
        let url_owned = url.to_owned();
        if contains_url(&self.tasks, &url_owned) {
            return Err(QueueError::UrlExists);
        }
        let task = Task::new(url_owned, self.team_id, self.device_id);
        let copy = task.duplicate();
        let ghost before = self.tasks@;
        self.tasks.push(task);
        proof {
            if urls_distinct(before) {
                assert forall|i: int, j: int|
                    0 <= i < self.tasks@.len() && 0 <= j < self.tasks@.len() && i != j implies (
                    #[trigger] self.tasks@[i]).url@ != (#[trigger] self.tasks@[j]).url@ by {
                    if i == before.len() {
                        assert(self.tasks@[j] == before[j]);
                    } else if j == before.len() {
                        assert(self.tasks@[i] == before[i]);
                    } else {
                        assert(self.tasks@[i] == before[i]);
                        assert(self.tasks@[j] == before[j]);
                    }
                }
            }
        }
        Ok(copy)
    }

    /// Claims task `task_id` for this device at `at`; only a `Queued` task
    /// can be claimed.
    pub fn claim_task_at(&mut self, task_id: u128, at: Timestamp) -> (r: Result<(), QueueError>)
        ensures
            final(self).team() == old(self).team(),
            final(self).device() == old(self).device(),
            match find_task(old(self).tasks(), task_id) {
                None => r == Err::<(), QueueError>(QueueError::TaskNotFound) && final(self).tasks()
                    == old(self).tasks(),
                Some(i) => if old(self).tasks()[i].status != TaskStatus::Queued {
                    r == Err::<(), QueueError>(QueueError::NotClaimable) && final(self).tasks()
                        == old(self).tasks()
                } else {
                    r is Ok && final(self).tasks() == old(self).tasks().update(
                        i,
                        claimed(old(self).tasks()[i], old(self).device(), at),
                    )
                },
            },
    {
        match position(&self.tasks, task_id) {
            None => Err(QueueError::TaskNotFound),
            Some(i) => {
                if self.tasks[i].status != TaskStatus::Queued {
                    return Err(QueueError::NotClaimable);
                }
                let mut task = self.tasks[i].duplicate();
                task.status = TaskStatus::Claimed;
                task.claimed_by = Some(self.device_id);
                task.claimed_at = Some(at);
                task.progress_at = Some(at);
                self.tasks.set(i, task);
                Ok(())
            },
        }
    }

    /// Claims task `task_id` for this device now.
    pub fn claim_task(&mut self, task_id: u128) -> (r: Result<(), QueueError>)
        ensures
            final(self).team() == old(self).team(),
            final(self).device() == old(self).device(),
            match find_task(old(self).tasks(), task_id) {
                None => r == Err::<(), QueueError>(QueueError::TaskNotFound) && final(self).tasks()
                    == old(self).tasks(),
                Some(i) => if old(self).tasks()[i].status != TaskStatus::Queued {
                    r == Err::<(), QueueError>(QueueError::NotClaimable) && final(self).tasks()
                        == old(self).tasks()
                } else {
                    r is Ok && exists|at: Timestamp|
                        final(self).tasks() == old(self).tasks().update(
                            i,
                            #[trigger] claimed(old(self).tasks()[i], old(self).device(), at),
                        )
                },
            },
    {
        let at = now();
        self.claim_task_at(task_id, at)
    }

    /// Records the progress of task `task_id`.
    pub fn update_progress(&mut self, task_id: u128, progress: u64) -> (r: Result<(), QueueError>)
        ensures
            final(self).team() == old(self).team(),
            final(self).device() == old(self).device(),
            match find_task(old(self).tasks(), task_id) {
                None => r == Err::<(), QueueError>(QueueError::TaskNotFound) && final(self).tasks()
                    == old(self).tasks(),
                Some(i) => r is Ok && final(self).tasks() == old(self).tasks().update(
                    i,
                    with_progress(old(self).tasks()[i], progress),
                ),
            },
    {
        match position(&self.tasks, task_id) {
            None => Err(QueueError::TaskNotFound),
            Some(i) => {
                let mut task = self.tasks[i].duplicate();
                task.progress = progress;
                self.tasks.set(i, task);
                Ok(())
            },
        }
    }

    /// Marks task `task_id` complete with the downloaded file.
    pub fn mark_complete(&mut self, task_id: u128, local_path: String, file_size: u64) -> (r:
        Result<(), QueueError>)
        ensures
            final(self).team() == old(self).team(),
            final(self).device() == old(self).device(),
            match find_task(old(self).tasks(), task_id) {
                None => r == Err::<(), QueueError>(QueueError::TaskNotFound) && final(self).tasks()
                    == old(self).tasks(),
                Some(i) => r is Ok && final(self).tasks() == old(self).tasks().update(
                    i,
                    completed(old(self).tasks()[i], local_path, file_size),
                ),
            },
    {
        match position(&self.tasks, task_id) {
            None => Err(QueueError::TaskNotFound),
            Some(i) => {
                let mut task = self.tasks[i].duplicate();
                task.status = TaskStatus::Complete;
                task.local_path = Some(local_path);
                task.file_size = Some(file_size);
                self.tasks.set(i, task);
                Ok(())
            },
        }
    }

    /// The first task with id `task_id`.
    pub fn get_task(&self, task_id: u128) -> (r: Option<&Task>)
        ensures
            match find_task(self.tasks(), task_id) {
                None => r is None,
                Some(i) => r == Some(&self.tasks()[i]),
            },
    {
        match position(&self.tasks, task_id) {
            None => None,
            Some(i) => Some(&self.tasks[i]),
        }
    }

    /// All tasks, in queue order.
    pub fn get_all_tasks(&self) -> (r: &[Task])
        ensures
            r@ == self.tasks(),
    {
        self.tasks.as_slice()
    }

    /// Puts task `task_id` in the `Queued` state (as the server does when it
    /// hands a task out).
    pub fn update_status_to_queued(&mut self, task_id: u128) -> (r: Result<(), QueueError>)
        ensures
            final(self).team() == old(self).team(),
            final(self).device() == old(self).device(),
            match find_task(old(self).tasks(), task_id) {
                None => r == Err::<(), QueueError>(QueueError::TaskNotFound) && final(self).tasks()
                    == old(self).tasks(),
                Some(i) => r is Ok && final(self).tasks() == old(self).tasks().update(
                    i,
                    queued(old(self).tasks()[i]),
                ),
            },
    {
        match position(&self.tasks, task_id) {
            None => Err(QueueError::TaskNotFound),
            Some(i) => {
                let mut task = self.tasks[i].duplicate();
                task.status = TaskStatus::Queued;
                self.tasks.set(i, task);
                Ok(())
            },
        }
    }

    /// Replaces the queue with the server's list, keeping the local tasks
    /// that are still `New` and whose URL the merged list does not hold yet.
    pub fn sync_from_server(&mut self, tasks: Vec<Task>)
        ensures
            final(self).team() == old(self).team(),
            final(self).device() == old(self).device(),
            final(self).tasks() == merge_spec(tasks@, old(self).tasks()),
    {
        let mut merged = tasks;
        let mut i: usize = 0;
        let ghost server = merged@;
        let ghost local = self.tasks@;
        assert(local.subrange(0, 0) =~= Seq::<Task>::empty());
        while i < self.tasks.len()
            invariant
                i <= self.tasks.len(),
                local == self.tasks@,
                merged@ == merge_spec(server, local.subrange(0, i as int)),
            decreases self.tasks.len() - i,
        {
            let t = &self.tasks[i];
            assert(local.subrange(0, i + 1).drop_last() =~= local.subrange(0, i as int));
            assert(local.subrange(0, i + 1).last() == *t);
            if t.status == TaskStatus::New && !contains_url(&merged, &t.url) {
                merged.push(t.duplicate());
            }
            i = i + 1;
        }
        assert(local.subrange(0, local.len() as int) =~= local);
        self.tasks = merged;
    }
}

/// A task that was marked complete can no longer be claimed.
pub proof fn lemma_completed_not_claimable(task: Task, local_path: String, file_size: u64)
    ensures
        completed(task, local_path, file_size).status != TaskStatus::Queued,
{
}

} // verus!
