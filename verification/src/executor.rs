//! The bookkeeping of the cooperative executor: task table and ready queue.
//!
//! The futures themselves live with the caller; the executor decides which
//! task is polled next.

use crate::event::TaskId;
use std::collections::HashMap;
use std::collections::VecDeque;
use vstd::prelude::*;

verus! {

/// The state of a task.
#[derive(Clone, Copy, Debug, PartialEq, Eq, Structural)]
pub enum TaskState {
    /// Woken or newly spawned: in the ready queue, to be polled.
    Ready,
    /// Polled and suspended, or being polled.
    Waiting,
    /// Completed; the executor has dropped it.
    Done,
}

/// The executor as contracts see it.
#[verifier::ext_equal]
pub struct ExecutorState {
    /// The tasks that are not done, each ready or waiting.
    pub tasks: Map<TaskId, TaskState>,
    /// The ready tasks, in the order in which they were woken.
    pub ready: Seq<TaskId>,
    /// The number of tasks spawned so far: the next task id.
    pub count: nat,
}

impl ExecutorState {
    /// An executor without tasks.
    pub open spec fn empty() -> Self {
        ExecutorState { tasks: Map::empty(), ready: Seq::empty(), count: 0 }
    }

    /// The ready queue holds exactly the ready tasks, each once.
    pub open spec fn wf(self) -> bool {
        &&& forall|t: TaskId| #[trigger] self.tasks.contains_key(t) ==> t < self.count
        &&& forall|t: TaskId| #[trigger] self.tasks.contains_key(t) ==> self.tasks[t] != TaskState::Done
        &&& self.ready.no_duplicates()
        &&& forall|t: TaskId|
            #[trigger] self.ready.contains(t) <==> (self.tasks.contains_key(t) && self.tasks[t]
                == TaskState::Ready)
    }

    /// The state of `task`, if it was ever spawned.
    pub open spec fn state(self, task: TaskId) -> Option<TaskState> {
        if self.tasks.contains_key(task) {
            Some(self.tasks[task])
        } else if task < self.count {
            Some(TaskState::Done)
        } else {
            None
        }
    }

    /// After spawning a task: it gets the next id and joins the ready queue at the back.
    pub open spec fn spawn(self) -> Self {
        ExecutorState {
            tasks: self.tasks.insert(self.count as TaskId, TaskState::Ready),
            ready: self.ready.push(self.count as TaskId),
            count: self.count + 1,
        }
    }

    /// After taking the front of the ready queue for polling.
    pub open spec fn poll(self) -> Self
        recommends
            self.ready.len() > 0,
    {
        ExecutorState {
            tasks: self.tasks.insert(self.ready[0], TaskState::Waiting),
            ready: self.ready.subrange(1, self.ready.len() as int),
            count: self.count,
        }
    }

    /// Whether `task` is suspended.
    pub open spec fn is_waiting(self, task: TaskId) -> bool {
        self.tasks.contains_key(task) && self.tasks[task] == TaskState::Waiting
    }

    /// After waking `task`: a waiting task joins the ready queue at the back;
    /// any other task is left as it is.
    pub open spec fn wake(self, task: TaskId) -> Self {
        if self.is_waiting(task) {
            ExecutorState {
                tasks: self.tasks.insert(task, TaskState::Ready),
                ready: self.ready.push(task),
                count: self.count,
            }
        } else {
            self
        }
    }

    /// After `task` has completed: a waiting task is dropped; any other task
    /// is left as it is.
    pub open spec fn finish(self, task: TaskId) -> Self {
        if self.is_waiting(task) {
            ExecutorState { tasks: self.tasks.remove(task), ready: self.ready, count: self.count }
        } else {
            self
        }
    }

    /// Spawning keeps the executor well formed.
    pub proof fn lemma_spawn_wf(self)
        requires
            self.wf(),
            self.count < u64::MAX,
        ensures
            self.spawn().wf(),
    {
        let n = self.spawn();
        let id = self.count as TaskId;
        assert(!self.ready.contains(id));
        assert forall|t: TaskId| #[trigger] n.ready.contains(t) <==> (n.tasks.contains_key(t)
            && n.tasks[t] == TaskState::Ready) by {
            if n.ready.contains(t) {
                let k = choose|k: int| 0 <= k < n.ready.len() && n.ready[k] == t;
                if k < self.ready.len() {
                    assert(self.ready.contains(t));
                }
            }
            if n.tasks.contains_key(t) && n.tasks[t] == TaskState::Ready {
                if t == id {
                    assert(n.ready[self.ready.len() as int] == t);
                } else {
                    assert(self.ready.contains(t));
                    let k = choose|k: int| 0 <= k < self.ready.len() && self.ready[k] == t;
                    assert(n.ready[k] == t);
                }
            }
        }
    }

    /// Taking the front of the ready queue keeps the executor well formed.
    pub proof fn lemma_poll_wf(self)
        requires
            self.wf(),
            self.ready.len() > 0,
        ensures
            self.poll().wf(),
    {
        let n = self.poll();
        let first = self.ready[0];
        assert(self.ready.contains(first));
        assert forall|t: TaskId| #[trigger] n.ready.contains(t) <==> (n.tasks.contains_key(t)
            && n.tasks[t] == TaskState::Ready) by {
            if n.ready.contains(t) {
                assert(self.ready.contains(t));
            }
            if n.tasks.contains_key(t) && n.tasks[t] == TaskState::Ready {
                assert(self.ready.contains(t));
                let k = choose|k: int| 0 <= k < self.ready.len() && self.ready[k] == t;
                assert(n.ready[k - 1] == t);
            }
        }
    }

    /// Waking a task keeps the executor well formed.
    pub proof fn lemma_wake_wf(self, task: TaskId)
        requires
            self.wf(),
        ensures
            self.wake(task).wf(),
    {
        if self.is_waiting(task) {
            let n = self.wake(task);
            assert(!self.ready.contains(task));
            assert forall|t: TaskId| #[trigger] n.ready.contains(t) <==> (n.tasks.contains_key(t)
                && n.tasks[t] == TaskState::Ready) by {
                if n.ready.contains(t) {
                    let k = choose|k: int| 0 <= k < n.ready.len() && n.ready[k] == t;
                    if k < self.ready.len() {
                        assert(self.ready.contains(t));
                    }
                }
                if n.tasks.contains_key(t) && n.tasks[t] == TaskState::Ready {
                    if t == task {
                        assert(n.ready[self.ready.len() as int] == t);
                    } else {
                        assert(self.ready.contains(t));
                        let k = choose|k: int| 0 <= k < self.ready.len() && self.ready[k] == t;
                        assert(n.ready[k] == t);
                    }
                }
            }
        }
    }

    /// Dropping a completed task keeps the executor well formed.
    pub proof fn lemma_finish_wf(self, task: TaskId)
        requires
            self.wf(),
        ensures
            self.finish(task).wf(),
    {
    }
}

/// The task table and the ready queue.
pub struct Executor {
    tasks: HashMap<TaskId, TaskState>,
    ready: VecDeque<TaskId>,
    count: u64,
}

impl View for Executor {
    type V = ExecutorState;

    closed spec fn view(&self) -> ExecutorState {
        ExecutorState { tasks: self.tasks@, ready: self.ready@, count: self.count as nat }
    }
}

impl Executor {
    /// The representation invariant.
    pub open spec fn wf(&self) -> bool {
        self@.wf() && self@.count <= u64::MAX
    }

    /// An executor without tasks.
    pub fn new() -> (e: Self)
        ensures
            e.wf(),
            e@ == ExecutorState::empty(),
    {
        let e = Executor { tasks: HashMap::new(), ready: VecDeque::new(), count: 0 };
        e
    }

    /// The number of tasks spawned so far.
    pub fn spawned(&self) -> (n: u64)
        ensures
            n == self@.count,
    {
        self.count
    }

    /// Whether some task is ready to be polled.
    pub fn has_ready(&self) -> (b: bool)
        ensures
            b == (self@.ready.len() > 0),
    {
        self.ready.len() > 0
    }

    /// The state of `task`, if it was ever spawned.
    pub fn state(&self, task: TaskId) -> (s: Option<TaskState>)
        ensures
            s == self@.state(task),
    {
        match self.tasks.get(&task) {
            Some(s) => Some(*s),
            None => if task < self.count {
                Some(TaskState::Done)
            } else {
                None
            },
        }
    }

    /// Registers a new task, ready to be polled, and returns its id.
    pub fn spawn(&mut self) -> (task: TaskId)
        requires
            old(self).wf(),
            old(self)@.count < u64::MAX,
        ensures
            final(self).wf(),
            task == old(self)@.count,
            final(self)@ == old(self)@.spawn(),
    {
        let task = self.count;
        proof {
            self@.lemma_spawn_wf();
        }
        self.tasks.insert(task, TaskState::Ready);
        self.ready.push_back(task);
        self.count = self.count + 1;
        task
    }

    /// Takes the task at the front of the ready queue for polling, if any.
    pub fn next_ready(&mut self) -> (r: Option<TaskId>)
        requires
            old(self).wf(),
        ensures
            final(self).wf(),
            match r {
                Some(task) => old(self)@.ready.len() > 0 && task == old(self)@.ready[0]
                    && final(self)@ == old(self)@.poll(),
                None => old(self)@.ready.len() == 0 && final(self)@ == old(self)@,
            },
    {
        match self.ready.pop_front() {
            Some(task) => {
                proof {
                    old(self)@.lemma_poll_wf();
                }
                self.tasks.insert(task, TaskState::Waiting);
                Some(task)
            },
            None => {
                None
            },
        }
    }

    /// Wakes `task`: a waiting task becomes ready and joins the ready queue.
    /// Returns whether the task was waiting.
    pub fn wake(&mut self, task: TaskId) -> (woken: bool)
        requires
            old(self).wf(),
        ensures
            final(self).wf(),
            woken == old(self)@.is_waiting(task),
            final(self)@ == old(self)@.wake(task),
    {
        proof {
            self@.lemma_wake_wf(task);
        }
        let waiting = match self.tasks.get(&task) {
            Some(s) => match s {
                TaskState::Waiting => true,
                _ => false,
            },
            None => false,
        };
        if waiting {
            self.tasks.insert(task, TaskState::Ready);
            self.ready.push_back(task);
        }
        waiting
    }

    /// Drops `task` after its completion. Returns whether the task was waiting;
    /// a task in any other state is left as it is.
    pub fn finish(&mut self, task: TaskId) -> (dropped: bool)
        requires
            old(self).wf(),
        ensures
            final(self).wf(),
            dropped == old(self)@.is_waiting(task),
            final(self)@ == old(self)@.finish(task),
    {
        let waiting = match self.tasks.get(&task) {
            Some(s) => match s {
                TaskState::Waiting => true,
                _ => false,
            },
            None => false,
        };
        if waiting {
            self.tasks.remove(&task);
        }
        waiting
    }
}

} // verus!
