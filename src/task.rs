use vstd::prelude::*;

use crate::error::AppError;

verus! {

/// The groups tasks are tagged with, for cancelling them together.
#[derive(Debug, Clone, Copy, PartialEq, Eq, Hash, Structural)]
pub enum TaskGroupId {
    Global,
    User,
}

pub open spec fn group_text(g: TaskGroupId) -> Seq<char> {
    match g {
        TaskGroupId::Global => "Global"@,
        TaskGroupId::User => "User"@,
    }
}

impl TaskGroupId {
    pub fn to_string(&self) -> (r: String)
        ensures
            r@ == group_text(*self),
    {
        match self {
            TaskGroupId::Global => "Global".to_owned(),
            TaskGroupId::User => "User".to_owned(),
        }
    }
}

/// A task's identity: its name and group, written `name:group`.
#[derive(Debug, Clone, PartialEq, Eq, Hash)]
pub struct TaskId(pub String);

pub open spec fn task_id_text(name: Seq<char>, group: TaskGroupId) -> Seq<char> {
    name + ":"@ + group_text(group)
}

impl TaskId {
    pub fn new(name: &str, group: TaskGroupId) -> (r: Self)
        ensures
            r.0@ == task_id_text(name@, group),
    {
        let mut s = name.to_owned();
        s.append(":");
        let g = group.to_string();
        s.append(g.as_str());
        proof {
            reveal_strlit(":");
        }
        TaskId(s)
    }

    pub fn same(&self, other: &TaskId) -> (r: bool)
        ensures
            r == (self.0@ == other.0@),
    {
        self.0 == other.0
    }

    pub fn as_str(&self) -> (r: &str)
        ensures
            r@ == self.0@,
    {
        self.0.as_str()
    }
}

/// A task's lifecycle: pending, then running, then exactly one terminal state.
#[derive(Debug, Clone, Copy, PartialEq, Eq, Structural)]
pub enum TaskStatus {
    Pending,
    Running,
    Completed,
    Cancelled,
    Failed,
}

pub open spec fn is_terminal(s: TaskStatus) -> bool {
    s == TaskStatus::Completed || s == TaskStatus::Cancelled || s == TaskStatus::Failed
}

/// A unit of work known to the registry. Its future and cancellation token live with the
/// executor; `cancel_requested` records that its token is to be cancelled.
#[derive(Debug)]
pub struct Task {
    pub id: TaskId,
    pub group: TaskGroupId,
    pub name: String,
    pub status: TaskStatus,
    pub visible: bool,
    pub description: String,
    pub cancel_requested: bool,
}

impl Task {
    pub fn new(id: TaskId, group: TaskGroupId, name: String, visible: bool, description: String) -> (r: Self)
        ensures
            r.id == id,
            r.group == group,
            r.name == name,
            r.status == TaskStatus::Pending,
            r.visible == visible,
            r.description == description,
            !r.cancel_requested,
    {
        Task { id, group, name, status: TaskStatus::Pending, visible, description, cancel_requested: false }
    }

    pub fn is_finished(&self) -> (r: bool)
        ensures
            r == is_terminal(self.status),
    {
        match self.status {
            TaskStatus::Completed | TaskStatus::Cancelled | TaskStatus::Failed => true,
            _ => false,
        }
    }
}

/// A lifecycle event, reported to the single consumer.
#[derive(Debug)]
pub enum TaskAction {
    Started(TaskId),
    Cancelled(TaskId),
    Completed(TaskId),
    Failed(TaskId, AppError),
}

/// The tasks without the one whose id text is `id`, if it is there.
pub open spec fn without_id(tasks: Seq<Task>, id: Seq<char>) -> Seq<Task> {
    if exists|k: int| has_id(tasks, id, k) {
        tasks.remove(choose|k: int| has_id(tasks, id, k))
    } else {
        tasks
    }
}

/// Whether an unfinished task with id text `id` is registered.
pub open spec fn running_with_id(tasks: Seq<Task>, id: Seq<char>) -> bool {
    exists|k: int| has_id(tasks, id, k) && !is_terminal(tasks[k].status)
}

/// Whether an event reports the start of the task with id text `id`.
pub open spec fn is_started(a: TaskAction, id: Seq<char>) -> bool {
    match a {
        TaskAction::Started(s) => s.0@ == id,
        _ => false,
    }
}

/// How a task's unit of work ended, as the executor observed it.
#[derive(Debug, Clone, Copy, PartialEq, Eq, Structural)]
pub enum TaskOutcome {
    Completed,
    Failed,
    Cancelled,
}

pub open spec fn outcome_status(o: TaskOutcome) -> TaskStatus {
    match o {
        TaskOutcome::Completed => TaskStatus::Completed,
        TaskOutcome::Failed => TaskStatus::Failed,
        TaskOutcome::Cancelled => TaskStatus::Cancelled,
    }
}

/// Task ids held at most once.
pub open spec fn ids_unique(tasks: Seq<Task>) -> bool {
    forall|i: int, j: int| 0 <= i < j < tasks.len() ==> (#[trigger] tasks[i]).id.0@ != (#[trigger] tasks[j]).id.0@
}

/// Whether a task with id text `id` belongs to `group`.
pub open spec fn in_group(tasks: Seq<Task>, id: Seq<char>, group: TaskGroupId) -> bool {
    exists|k: int| 0 <= k < tasks.len() && tasks[k].id.0@ == id && tasks[k].group == group
}

/// The position of the task with id text `id`, if any.
pub open spec fn has_id(tasks: Seq<Task>, id: Seq<char>, k: int) -> bool {
    0 <= k < tasks.len() && tasks[k].id.0@ == id
}

/// The registry of tasks, with the lifecycle events not yet handed to the consumer.
pub struct TaskManager {
    tasks: Vec<Task>,
    outbox: Vec<TaskAction>,
}

impl TaskManager {
    pub closed spec fn tasks_view(&self) -> Seq<Task> {
        self.tasks@
    }

    pub closed spec fn events(&self) -> Seq<TaskAction> {
        self.outbox@
    }

    pub open spec fn wf(&self) -> bool {
        ids_unique(self.tasks_view())
    }

    pub fn new() -> (r: Self)
        ensures
            r.wf(),
            r.tasks_view().len() == 0,
            r.events().len() == 0,
    {
        TaskManager { tasks: Vec::new(), outbox: Vec::new() }
    }

    fn position(&self, id: &TaskId) -> (r: Option<usize>)
        ensures
            match r {
                Some(k) => has_id(self.tasks_view(), id.0@, k as int),
                None => forall|k: int| !has_id(self.tasks_view(), id.0@, k),
            },
    {
        let mut k: usize = 0;
        while k < self.tasks.len()
            invariant
                k <= self.tasks@.len(),
                forall|j: int| 0 <= j < k ==> !has_id(self.tasks@, id.0@, j),
            decreases self.tasks@.len() - k,
        {
            if self.tasks[k].id.same(id) {
                return Some(k);
            }
            k = k + 1;
        }
        None
    }

    /// Registers a task as running and reports `Started`. When a task of the same name and
    /// group is still unfinished, nothing changes and `None` is returned; a finished one is
    /// replaced.
    pub fn start(&mut self, name: &str, group: TaskGroupId, visible: bool, description: &str) -> (r: Option<TaskId>)
        requires
            old(self).wf(),
        ensures
            final(self).wf(),
            running_with_id(old(self).tasks_view(), task_id_text(name@, group)) ==> r is None,
            running_with_id(old(self).tasks_view(), task_id_text(name@, group)) ==> final(self).tasks_view()
                == old(self).tasks_view() && final(self).events() == old(self).events(),
            !running_with_id(old(self).tasks_view(), task_id_text(name@, group)) ==> (r matches Some(id)
                && id.0@ == task_id_text(name@, group)),
            !running_with_id(old(self).tasks_view(), task_id_text(name@, group)) ==> final(self).events()
                == old(self).events().push(TaskAction::Started(r->Some_0)),
            !running_with_id(old(self).tasks_view(), task_id_text(name@, group)) ==> final(self).tasks_view()
                .len() > 0 && final(self).tasks_view().drop_last() == without_id(old(self).tasks_view(), task_id_text(name@, group)),
            !running_with_id(old(self).tasks_view(), task_id_text(name@, group)) ==> ({
                let t = final(self).tasks_view().last();
                &&& t.id.0@ == task_id_text(name@, group)
                &&& t.status == TaskStatus::Running
                &&& t.group == group
                &&& t.name@ == name@
                &&& t.visible == visible
                &&& t.description@ == description@
                &&& !t.cancel_requested
            }),
            !running_with_id(old(self).tasks_view(), task_id_text(name@, group)) ==> forall|k: int|
                0 <= k < old(self).tasks_view().len() && old(self).tasks_view()[k].id.0@ != task_id_text(name@, group)
                ==> final(self).tasks_view().contains(#[trigger] old(self).tasks_view()[k]),
    {
        let id = TaskId::new(name, group);
        match self.position(&id) {
            Some(k) => {
                if !self.tasks[k].is_finished() {
                    return None;
                }
                let ghost before = self.tasks@;
                self.tasks.remove(k);
                proof {
                    assert forall|a: int| has_id(before, id.0@, a) implies a == k by {
                        if a < k {
                            assert(before[a].id.0@ != before[k as int].id.0@);
                        } else if a > k {
                            assert(before[k as int].id.0@ != before[a].id.0@);
                        }
                    }
                    assert(has_id(before, id.0@, k as int));
                    assert(self.tasks@ == without_id(before, id.0@));
                    assert forall|i: int, j: int| 0 <= i < j < self.tasks@.len() implies (#[trigger] self.tasks@[i]).id.0@
                        != (#[trigger] self.tasks@[j]).id.0@ by {
                        let a = if i < k { i } else { i + 1 };
                        let b = if j < k { j } else { j + 1 };
                        assert(self.tasks@[i] == before[a]);
                        assert(self.tasks@[j] == before[b]);
                    }
                    assert forall|m: int| 0 <= m < before.len() && before[m].id.0@ != id.0@ implies self.tasks@.contains(#[trigger] before[m]) by {
                        if m < k {
                            assert(self.tasks@[m] == before[m]);
                        } else {
                            assert(m != k);
                            assert(self.tasks@[m - 1] == before[m]);
                        }
                    }
                    assert forall|j: int| !has_id(self.tasks@, id.0@, j) by {
                        if has_id(self.tasks@, id.0@, j) {
                            let b = if j < k { j } else { j + 1 };
                            assert(self.tasks@[j] == before[b]);
                        }
                    }
                }
            },
            None => {
                proof {
                    assert forall|m: int| 0 <= m < self.tasks@.len() && self.tasks@[m].id.0@ != id.0@ implies self.tasks@.contains(#[trigger] self.tasks@[m]) by {}
                    assert(self.tasks@ == without_id(self.tasks@, id.0@));
                }
            },
        }
        proof {
            assert(ids_unique(self.tasks@));
            assert(forall|j: int| !has_id(self.tasks@, id.0@, j));
            assert(forall|m: int| 0 <= m < old(self).tasks@.len() && old(self).tasks@[m].id.0@ != id.0@ ==> self.tasks@.contains(#[trigger] old(self).tasks@[m]));
        }
        let mut task = Task::new(id.clone_id(), group, name.to_owned(), visible, description.to_owned());
        task.status = TaskStatus::Running;
        let ghost before = self.tasks@;
        proof {
            assert(before == without_id(old(self).tasks@, id.0@));
        }
        self.tasks.push(task);
        proof {
            assert(self.tasks@.drop_last() =~= before);
            assert(has_id(self.tasks@, id.0@, before.len() as int));
            let nt = self.tasks@[before.len() as int];
            assert(nt.status == TaskStatus::Running && nt.group == group && nt.name@ == name@ && nt.visible == visible
                && nt.description@ == description@ && !nt.cancel_requested);
            assert forall|i: int, j: int| 0 <= i < j < self.tasks@.len() implies (#[trigger] self.tasks@[i]).id.0@
                != (#[trigger] self.tasks@[j]).id.0@ by {
                assert(self.tasks@[i] == before[i]);
                if j == before.len() {
                    assert(!has_id(before, id.0@, i));
                } else {
                    assert(self.tasks@[j] == before[j]);
                }
            }
            assert forall|m: int| 0 <= m < old(self).tasks@.len() && old(self).tasks@[m].id.0@ != id.0@ implies self.tasks@.contains(#[trigger] old(self).tasks@[m]) by {
                let x = old(self).tasks@[m];
                assert(before.contains(x));
                let w = choose|w: int| 0 <= w < before.len() && before[w] == x;
                assert(self.tasks@[w] == before[w]);
            }
        }
        let started = id.clone_id();
        self.outbox.push(TaskAction::Started(started));
        Some(id)
    }

    /// Hands the pending lifecycle events to the consumer, oldest first.
    pub fn take_events(&mut self) -> (r: Vec<TaskAction>)
        ensures
            r@ == old(self).events(),
            final(self).events().len() == 0,
            final(self).tasks_view() == old(self).tasks_view(),
    {
        let mut out: Vec<TaskAction> = Vec::new();
        std::mem::swap(&mut out, &mut self.outbox);
        out
    }

    /// Requests cancellation of every task of `group`; tasks of other groups are untouched.
    /// Returns the ids whose cancellation was requested.
    pub fn cancel_group(&mut self, group: TaskGroupId) -> (r: Vec<TaskId>)
        ensures
            final(self).tasks_view().len() == old(self).tasks_view().len(),
            final(self).events() == old(self).events(),
            forall|k: int| 0 <= k < old(self).tasks_view().len() ==> ({
                let was = #[trigger] old(self).tasks_view()[k];
                let now = final(self).tasks_view()[k];
                &&& now.id == was.id
                &&& now.group == was.group
                &&& now.status == was.status
                &&& now.name == was.name
                &&& now.visible == was.visible
                &&& now.description == was.description
                &&& now.cancel_requested == (was.cancel_requested || was.group == group)
            }),
            r@.len() <= old(self).tasks_view().len(),
            forall|j: int| 0 <= j < r@.len() ==> in_group(old(self).tasks_view(), (#[trigger] r@[j]).0@, group),
            forall|k: int| 0 <= k < old(self).tasks_view().len() && (#[trigger] old(self).tasks_view()[k]).group == group
                ==> exists|j: int| 0 <= j < r@.len() && r@[j].0@ == old(self).tasks_view()[k].id.0@,
    {
        let mut out: Vec<TaskId> = Vec::new();
        let mut k: usize = 0;
        let ghost before = self.tasks@;
        while k < self.tasks.len()
            invariant
                self.tasks@.len() == before.len(),
                k <= before.len(),
                self.outbox@ == old(self).outbox@,
                before == old(self).tasks@,
                out@.len() <= k,
                forall|i: int| k <= i < before.len() ==> #[trigger] self.tasks@[i] == before[i],
                forall|i: int| 0 <= i < k ==> ({
                    let was = #[trigger] before[i];
                    let now = self.tasks@[i];
                    &&& now.id == was.id
                    &&& now.group == was.group
                    &&& now.status == was.status
                    &&& now.name == was.name
                    &&& now.visible == was.visible
                    &&& now.description == was.description
                    &&& now.cancel_requested == (was.cancel_requested || was.group == group)
                }),
                forall|j: int| 0 <= j < out@.len() ==> in_group(before, (#[trigger] out@[j]).0@, group),
                forall|i: int| 0 <= i < k && (#[trigger] before[i]).group == group
                    ==> exists|j: int| 0 <= j < out@.len() && out@[j].0@ == before[i].id.0@,
            decreases before.len() - k,
        {
            if self.tasks[k].group == group {
                let id = self.tasks[k].id.clone_id();
                let ghost out_before = out@;
                out.push(id);
                let mut t = self.tasks.remove(k);
                t.cancel_requested = true;
                self.tasks.insert(k, t);
                proof {
                    assert(out@[out@.len() - 1] == id);
                    assert forall|j: int| 0 <= j < out@.len() implies in_group(before, (#[trigger] out@[j]).0@, group) by {
                        if j < out_before.len() {
                            assert(out@[j] == out_before[j]);
                        } else {
                            assert(before[k as int].group == group);
                            assert(out@[j].0@ == before[k as int].id.0@);
                        }
                    }
                    assert forall|i: int| 0 <= i < k + 1 && (#[trigger] before[i]).group == group
                        implies exists|j: int| 0 <= j < out@.len() && out@[j].0@ == before[i].id.0@ by {
                        if i < k {
                            let j = choose|j: int| 0 <= j < out_before.len() && out_before[j].0@ == before[i].id.0@;
                            assert(out@[j] == out_before[j]);
                        } else {
                            assert(out@[out_before.len() as int].0@ == before[i].id.0@);
                        }
                    }
                }
            }
            k = k + 1;
        }
        out
    }

    /// Requests cancellation of every task. Returns the ids whose cancellation was requested.
    pub fn cancel_all(&mut self) -> (r: Vec<TaskId>)
        ensures
            final(self).tasks_view().len() == old(self).tasks_view().len(),
            final(self).events() == old(self).events(),
            r@.len() == old(self).tasks_view().len(),
            forall|k: int| 0 <= k < old(self).tasks_view().len() ==> ({
                let was = #[trigger] old(self).tasks_view()[k];
                let now = final(self).tasks_view()[k];
                &&& now.id == was.id
                &&& now.group == was.group
                &&& now.status == was.status
                &&& now.cancel_requested
                &&& r@[k].0@ == was.id.0@
            }),
    {
        let mut out: Vec<TaskId> = Vec::new();
        let mut k: usize = 0;
        let ghost before = self.tasks@;
        while k < self.tasks.len()
            invariant
                self.tasks@.len() == before.len(),
                k <= before.len(),
                self.outbox@ == old(self).outbox@,
                before == old(self).tasks@,
                out@.len() == k,
                forall|i: int| k <= i < before.len() ==> #[trigger] self.tasks@[i] == before[i],
                forall|i: int| 0 <= i < k ==> ({
                    let was = #[trigger] before[i];
                    let now = self.tasks@[i];
                    &&& now.id == was.id
                    &&& now.group == was.group
                    &&& now.status == was.status
                    &&& now.cancel_requested
                    &&& out@[i].0@ == was.id.0@
                }),
            decreases before.len() - k,
        {
            out.push(self.tasks[k].id.clone_id());
            let mut t = self.tasks.remove(k);
            t.cancel_requested = true;
            self.tasks.insert(k, t);
            k = k + 1;
        }
        out
    }

    /// Requests cancellation of one task. Its state is left as it is: whichever of its work and
    /// its cancellation resolves first is reported through `finish`. Returns whether the
    /// registry holds it.
    pub fn cancel(&mut self, task_id: &TaskId) -> (r: bool)
        requires
            old(self).wf(),
        ensures
            final(self).wf(),
            final(self).events() == old(self).events(),
            final(self).tasks_view().len() == old(self).tasks_view().len(),
            r == exists|k: int| has_id(old(self).tasks_view(), task_id.0@, k),
            forall|k: int| 0 <= k < old(self).tasks_view().len() ==> ({
                let was = #[trigger] old(self).tasks_view()[k];
                let now = final(self).tasks_view()[k];
                &&& now.id == was.id
                &&& now.group == was.group
                &&& (was.id.0@ != task_id.0@ ==> now == was)
                &&& (was.id.0@ == task_id.0@ ==> now.cancel_requested && now.status == was.status
                    && now.name == was.name && now.visible == was.visible && now.description == was.description)
            }),
    {
        match self.position(task_id) {
            Some(k) => {
                let ghost before = self.tasks@;
                let mut t = self.tasks.remove(k);
                t.cancel_requested = true;
                self.tasks.insert(k, t);
                proof {
                    assert forall|i: int| 0 <= i < before.len() implies ({
                        let was = #[trigger] before[i];
                        let now = self.tasks@[i];
                        &&& now.id == was.id
                        &&& now.group == was.group
                        &&& (was.id.0@ != task_id.0@ ==> now == was)
                        &&& (was.id.0@ == task_id.0@ ==> now.cancel_requested && now.status == was.status
                            && now.name == was.name && now.visible == was.visible && now.description == was.description)
                    }) by {
                        if i != k {
                            assert(self.tasks@[i] == before[i]);
                            if before[i].id.0@ == task_id.0@ {
                                if i < k {
                                    assert(before[i].id.0@ != before[k as int].id.0@);
                                } else {
                                    assert(before[k as int].id.0@ != before[i].id.0@);
                                }
                            }
                        }
                    }
                    assert(self.tasks@ =~= before.update(k as int, self.tasks@[k as int]));
                }
                true
            },
            None => {
                proof {
                    assert forall|m: int| 0 <= m < self.tasks@.len() implies (#[trigger] self.tasks@[m]).id.0@ != task_id.0@ by {
                        assert(!has_id(self.tasks@, task_id.0@, m));
                    }
                }
                false
            },
        }
    }

    /// Records how a running task's unit of work ended. A task that is not running keeps its
    /// state: terminal states have no way out.
    pub fn finish(&mut self, task_id: &TaskId, outcome: TaskOutcome)
        requires
            old(self).wf(),
        ensures
            final(self).wf(),
            final(self).events() == old(self).events(),
            final(self).tasks_view().len() == old(self).tasks_view().len(),
            forall|k: int| 0 <= k < old(self).tasks_view().len() ==> ({
                let was = #[trigger] old(self).tasks_view()[k];
                let now = final(self).tasks_view()[k];
                &&& now.id == was.id
                &&& now.group == was.group
                &&& now.cancel_requested == was.cancel_requested
                &&& (was.id.0@ != task_id.0@ ==> now == was)
                &&& (was.id.0@ == task_id.0@ ==> now.status == (if was.status == TaskStatus::Running {
                    outcome_status(outcome)
                } else {
                    was.status
                }))
            }),
    {
        match self.position(task_id) {
            Some(k) => {
                let ghost before = self.tasks@;
                let mut t = self.tasks.remove(k);
                if t.status == TaskStatus::Running {
                    t.status = match outcome {
                        TaskOutcome::Completed => TaskStatus::Completed,
                        TaskOutcome::Failed => TaskStatus::Failed,
                        TaskOutcome::Cancelled => TaskStatus::Cancelled,
                    };
                }
                self.tasks.insert(k, t);
                proof {
                    assert forall|i: int| 0 <= i < before.len() implies ({
                        let was = #[trigger] before[i];
                        let now = self.tasks@[i];
                        &&& now.id == was.id
                        &&& now.group == was.group
                        &&& now.cancel_requested == was.cancel_requested
                        &&& (was.id.0@ != task_id.0@ ==> now == was)
                        &&& (was.id.0@ == task_id.0@ ==> now.status == (if was.status == TaskStatus::Running {
                            outcome_status(outcome)
                        } else {
                            was.status
                        }))
                    }) by {
                        if i != k {
                            assert(self.tasks@[i] == before[i]);
                            if before[i].id.0@ == task_id.0@ {
                                if i < k {
                                    assert(before[i].id.0@ != before[k as int].id.0@);
                                } else {
                                    assert(before[k as int].id.0@ != before[i].id.0@);
                                }
                            }
                        }
                    }
                    assert(self.tasks@ =~= before.update(k as int, self.tasks@[k as int]));
                }
            },
            None => {
                proof {
                    assert forall|m: int| 0 <= m < self.tasks@.len() implies (#[trigger] self.tasks@[m]).id.0@ != task_id.0@ by {
                        assert(!has_id(self.tasks@, task_id.0@, m));
                    }
                }
            },
        }
    }

    pub fn get_task(&self, task_id: &TaskId) -> (r: Option<&Task>)
        ensures
            match r {
                Some(t) => exists|k: int| has_id(self.tasks_view(), task_id.0@, k) && *t == self.tasks_view()[k],
                None => forall|k: int| !has_id(self.tasks_view(), task_id.0@, k),
            },
    {
        match self.position(task_id) {
            Some(k) => Some(&self.tasks[k]),
            None => None,
        }
    }

    pub fn len(&self) -> (r: usize)
        ensures
            r == self.tasks_view().len(),
    {
        self.tasks.len()
    }

    /// Drops every finished task, keeping the others in order.
    pub fn cleanup_finished(&mut self)
        requires
            old(self).wf(),
        ensures
            final(self).wf(),
            final(self).events() == old(self).events(),
            final(self).tasks_view() == old(self).tasks_view().filter(|t: Task| !is_terminal(t.status)),
    {
        let ghost before = self.tasks@;
        let mut kept: Vec<Task> = Vec::new();
        let mut rest: Vec<Task> = Vec::new();
        std::mem::swap(&mut rest, &mut self.tasks);
        let n = rest.len();
        let mut i: usize = 0;
        proof {
            reveal(Seq::filter);
            assert(before.take(0) =~= Seq::<Task>::empty());
        }
        while i < n
            invariant
                n == before.len(),
                i <= n,
                rest@ == before.skip(i as int),
                kept@ == before.take(i as int).filter(|t: Task| !is_terminal(t.status)),
                ids_unique(kept@),
                forall|a: int| 0 <= a < kept@.len() ==> exists|j: int| 0 <= j < i && #[trigger] kept@[a] == before[j],
                self.outbox@ == old(self).outbox@,
                ids_unique(before),
            decreases n - i,
        {
            let t = rest.remove(0);
            proof {
                reveal(Seq::filter);
                assert(t == before[i as int]);
                assert(before.take(i + 1).drop_last() =~= before.take(i as int));
                assert(rest@ =~= before.skip(i + 1));
            }
            if !t.is_finished() {
                let ghost old_kept = kept@;
                kept.push(t);
                proof {
                    assert forall|a: int, b: int| 0 <= a < b < kept@.len() implies (#[trigger] kept@[a]).id.0@ != (#[trigger] kept@[b]).id.0@ by {
                        if b == old_kept.len() {
                            let j = choose|j: int| 0 <= j < i && #[trigger] old_kept[a] == before[j];
                            assert(kept@[a] == old_kept[a]);
                            assert(before[j].id.0@ != before[i as int].id.0@);
                        } else {
                            assert(kept@[a] == old_kept[a] && kept@[b] == old_kept[b]);
                        }
                    }
                    assert forall|a: int| 0 <= a < kept@.len() implies exists|j: int| 0 <= j < i + 1 && #[trigger] kept@[a] == before[j] by {
                        if a < old_kept.len() {
                            assert(kept@[a] == old_kept[a]);
                            let j = choose|j: int| 0 <= j < i && #[trigger] old_kept[a] == before[j];
                            assert(0 <= j < i + 1 && kept@[a] == before[j]);
                        } else {
                            assert(kept@[a] == before[i as int]);
                        }
                    }
                }
            }
            i = i + 1;
        }
        assert(before.take(n as int) =~= before);
        self.tasks = kept;
    }
}

impl TaskId {
    pub fn clone_id(&self) -> (r: TaskId)
        ensures
            r == *self,
    {
        TaskId(self.0.clone())
    }
}

} // verus!
