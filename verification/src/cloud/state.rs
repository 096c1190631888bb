//! The task store of the cloud service: tasks keyed by id, the events that
//! each change publishes, and the listings by creation time.

use vstd::prelude::*;
use crate::text::{clone_opt_string, opt_view, str_eq};
use vstd::string::StringExecFns;

verus! {

broadcast use vstd::seq_lib::group_to_multiset_ensures;

/// The state of a cloud task.
#[derive(Clone, Copy, Debug, PartialEq, Eq, Structural)]
pub enum TaskStatus {
    Pending,
    Downloading,
    Completed,
    Failed,
    Cancelled,
}

/// A point in time: whole seconds since the Unix epoch and the nanoseconds
/// within the second.
#[derive(Clone, Copy, Debug, PartialEq, Eq, Structural)]
pub struct Timestamp {
    pub secs: i64,
    pub nanos: u32,
}

/// `a` is earlier than `b`.
pub open spec fn earlier(a: Timestamp, b: Timestamp) -> bool {
    a.secs < b.secs || (a.secs == b.secs && a.nanos < b.nanos)
}

/// The current time (`chrono::Utc::now`), as seconds and nanoseconds
/// since the Unix epoch. Nothing is claimed of its value.
#[verifier::external_body]
pub(crate) fn now() -> (r: Timestamp) {
    let t = chrono::Utc::now();
    Timestamp { secs: t.timestamp(), nanos: t.timestamp_subsec_nanos() }
}

/// A fresh random (version 4) UUID in its hyphenated form
/// (`uuid::Uuid::new_v4`, formatted). Nothing is claimed of its value.
#[verifier::external_body]
pub(crate) fn fresh_uuid() -> (r: String) {
    uuid::Uuid::new_v4().to_string()
}

/// A download task of the cloud service. The progress, a percentage, is
/// held as the bit pattern of its `f32` value.
#[derive(Debug)]
pub struct CloudTask {
    pub id: String,
    pub url: String,
    pub platform: String,
    pub status: TaskStatus,
    pub progress_bits: u32,
    pub speed: String,
    pub size: String,
    pub output_path: Option<String>,
    pub error: Option<String>,
    pub created_at: Timestamp,
    pub updated_at: Timestamp,
    pub user_id: String,
}

pub struct CloudTaskView {
    pub id: Seq<char>,
    pub url: Seq<char>,
    pub platform: Seq<char>,
    pub status: TaskStatus,
    pub progress_bits: u32,
    pub speed: Seq<char>,
    pub size: Seq<char>,
    pub output_path: Option<Seq<char>>,
    pub error: Option<Seq<char>>,
    pub created_at: Timestamp,
    pub updated_at: Timestamp,
    pub user_id: Seq<char>,
}

impl View for CloudTask {
    type V = CloudTaskView;

    open spec fn view(&self) -> CloudTaskView {
        CloudTaskView {
            id: self.id@,
            url: self.url@,
            platform: self.platform@,
            status: self.status,
            progress_bits: self.progress_bits,
            speed: self.speed@,
            size: self.size@,
            output_path: opt_view(self.output_path),
            error: opt_view(self.error),
            created_at: self.created_at,
            updated_at: self.updated_at,
            user_id: self.user_id@,
        }
    }
}

impl Clone for CloudTask {
    fn clone(&self) -> (r: Self)
        ensures
            r@ == self@,
    {
        CloudTask {
            id: self.id.clone(),
            url: self.url.clone(),
            platform: self.platform.clone(),
            status: self.status,
            progress_bits: self.progress_bits,
            speed: self.speed.clone(),
            size: self.size.clone(),
            output_path: clone_opt_string(&self.output_path),
            error: clone_opt_string(&self.error),
            created_at: self.created_at,
            updated_at: self.updated_at,
            user_id: self.user_id.clone(),
        }
    }
}

/// A change of the store, as published to subscribers.
#[derive(Debug)]
pub enum TaskEvent {
    TaskCreated { task: CloudTask },
    TaskUpdated { task: CloudTask },
    TaskCompleted { task: CloudTask },
    TaskFailed { task_id: String, error: String },
    TaskRemoved { task_id: String },
}

pub enum TaskEventView {
    TaskCreated { task: CloudTaskView },
    TaskUpdated { task: CloudTaskView },
    TaskCompleted { task: CloudTaskView },
    TaskFailed { task_id: Seq<char>, error: Seq<char> },
    TaskRemoved { task_id: Seq<char> },
}

impl View for TaskEvent {
    type V = TaskEventView;

    open spec fn view(&self) -> TaskEventView {
        match self {
            TaskEvent::TaskCreated { task } => TaskEventView::TaskCreated { task: task@ },
            TaskEvent::TaskUpdated { task } => TaskEventView::TaskUpdated { task: task@ },
            TaskEvent::TaskCompleted { task } => TaskEventView::TaskCompleted { task: task@ },
            TaskEvent::TaskFailed { task_id, error } => TaskEventView::TaskFailed { task_id: task_id@, error: error@ },
            TaskEvent::TaskRemoved { task_id } => TaskEventView::TaskRemoved { task_id: task_id@ },
        }
    }
}

/// The bit pattern of the `f32` value 100.0.
pub open spec fn hundred_bits() -> u32 {
    0x42C8_0000
}

/// Whether the `f32` value with bit pattern `bits` is at least 100.0: the
/// non-negative values (sign bit clear) order as their bit patterns, from
/// 100.0 (0x42C80000) up to infinity (0x7F800000); NaN and negative values
/// compare false.
pub open spec fn at_least_hundred(bits: u32) -> bool {
    0x42C8_0000 <= bits <= 0x7F80_0000
}

pub open spec fn task_views(v: Seq<CloudTask>) -> Seq<CloudTaskView> {
    v.map_values(|t: CloudTask| t@)
}

pub open spec fn event_views(v: Seq<TaskEvent>) -> Seq<TaskEventView> {
    v.map_values(|e: TaskEvent| e@)
}

/// No two tasks share an id.
pub open spec fn task_ids_distinct(ts: Seq<CloudTaskView>) -> bool {
    forall|a: int, b: int| 0 <= a < ts.len() && 0 <= b < ts.len() && a != b ==> #[trigger] ts[a].id != #[trigger] ts[b].id
}

/// Task `i` has id `id`.
pub open spec fn has_task_at(ts: Seq<CloudTaskView>, id: Seq<char>, i: int) -> bool {
    0 <= i < ts.len() && ts[i].id == id
}

/// The tasks after storing `t`: a task with the same id is replaced.
pub open spec fn after_store(ts: Seq<CloudTaskView>, t: CloudTaskView) -> Seq<CloudTaskView> {
    if exists|i: int| has_task_at(ts, t.id, i) {
        ts.update(choose|i: int| has_task_at(ts, t.id, i), t)
    } else {
        ts.push(t)
    }
}

/// The tasks after storing each of `items`, in order.
pub open spec fn after_stores(ts: Seq<CloudTaskView>, items: Seq<CloudTaskView>) -> Seq<CloudTaskView>
    decreases items.len(),
{
    if items.len() == 0 {
        ts
    } else {
        after_store(after_stores(ts, items.drop_last()), items.last())
    }
}

/// The events that creating each of `items` publishes, in order.
pub open spec fn created_events(items: Seq<CloudTaskView>) -> Seq<TaskEventView> {
    items.map_values(|t: CloudTaskView| TaskEventView::TaskCreated { task: t })
}

/// A new task: pending, no progress, speed "0 MB/s", size "0 MB".
pub open spec fn is_new_task(t: CloudTaskView, url: Seq<char>, platform: Seq<char>, user_id: Seq<char>) -> bool {
    &&& t.url == url
    &&& t.platform == platform
    &&& t.user_id == user_id
    &&& t.status == TaskStatus::Pending
    &&& t.progress_bits == 0
    &&& t.speed == "0 MB/s"@
    &&& t.size == "0 MB"@
    &&& t.output_path is None
    &&& t.error is None
}

/// `t` after a progress report; the status becomes `Completed` at 100% and
/// `Downloading` below.
pub open spec fn progressed(t: CloudTaskView, bits: u32, speed: Seq<char>, size: Seq<char>, at: Timestamp) -> CloudTaskView {
    CloudTaskView {
        progress_bits: bits,
        speed,
        size,
        updated_at: at,
        status: if at_least_hundred(bits) {
            TaskStatus::Completed
        } else {
            TaskStatus::Downloading
        },
        ..t
    }
}

/// `t` after completion: status `Completed`, progress 100, the output path.
pub open spec fn completed(t: CloudTaskView, output_path: Seq<char>, at: Timestamp) -> CloudTaskView {
    CloudTaskView {
        status: TaskStatus::Completed,
        progress_bits: hundred_bits(),
        output_path: Some(output_path),
        updated_at: at,
        ..t
    }
}

/// `t` after failure: status `Failed` and the error.
pub open spec fn failed(t: CloudTaskView, error: Seq<char>, at: Timestamp) -> CloudTaskView {
    CloudTaskView { status: TaskStatus::Failed, error: Some(error), updated_at: at, ..t }
}

/// The tasks are in order of creation, latest first.
pub open spec fn latest_first(ts: Seq<CloudTaskView>) -> bool {
    forall|a: int, b: int| 0 <= a < b < ts.len() ==> !earlier(#[trigger] ts[a].created_at, #[trigger] ts[b].created_at)
}

/// The view of the store.
pub struct CloudStateView {
    pub tasks: Seq<CloudTaskView>,
    pub download_dir: Seq<char>,
    pub port: u16,
    /// The events published and not yet taken.
    pub events: Seq<TaskEventView>,
}

/// The task store of the cloud service.
pub struct CloudState {
    tasks: Vec<CloudTask>,
    download_dir: String,
    port: u16,
    events: Vec<TaskEvent>,
}

impl View for CloudState {
    type V = CloudStateView;

    closed spec fn view(&self) -> CloudStateView {
        CloudStateView {
            tasks: task_views(self.tasks@),
            download_dir: self.download_dir@,
            port: self.port,
            events: event_views(self.events@),
        }
    }
}

impl CloudState {
    #[verifier::type_invariant]
    spec fn wf(self) -> bool {
        task_ids_distinct(task_views(self.tasks@))
    }

    /// An empty store for downloads into `download_dir`, served on `port`.
    pub fn new(download_dir: String, port: u16) -> (r: Self)
        ensures
            r@.tasks.len() == 0,
            r@.events.len() == 0,
            r@.download_dir == download_dir@,
            r@.port == port,
    {
        let r = CloudState { tasks: Vec::new(), download_dir, port, events: Vec::new() };
        assert(task_views(r.tasks@) =~= Seq::<CloudTaskView>::empty());
        r
    }

    /// The directory downloads go to.
    pub fn download_dir(&self) -> (r: &str)
        ensures
            r@ == self@.download_dir,
    {
        self.download_dir.as_str()
    }

    /// The port the service listens on.
    pub fn port(&self) -> (r: u16)
        ensures
            r == self@.port,
    {
        self.port
    }

    fn find_task(&self, id: &str) -> (r: Option<usize>)
        ensures
            match r {
                Some(i) => has_task_at(self@.tasks, id@, i as int),
                None => forall|i: int| !has_task_at(self@.tasks, id@, i),
            },
    {
        let mut i: usize = 0;
        while i < self.tasks.len()
            invariant
                i <= self.tasks@.len(),
                self@.tasks == task_views(self.tasks@),
                forall|k: int| 0 <= k < i ==> !has_task_at(self@.tasks, id@, k),
            decreases self.tasks@.len() - i,
        {
            if str_eq(self.tasks[i].id.as_str(), id) {
                return Some(i);
            }
            i = i + 1;
        }
        None
    }

    fn publish(&mut self, e: TaskEvent)
        ensures
            final(self)@ == (CloudStateView { events: old(self)@.events.push(e@), ..old(self)@ }),
    {
        proof {
            use_type_invariant(&*self);
        }
        let ghost before = self.events@;
        let mut events: Vec<TaskEvent> = Vec::new();
        std::mem::swap(&mut events, &mut self.events);
        events.push(e);
        self.events = events;
        assert(event_views(self.events@) =~= event_views(before).push(e@));
    }

    /// Puts `t` at position `i`, which holds a task with the same id.
    fn replace_at(&mut self, i: usize, t: CloudTask)
        requires
            i < old(self)@.tasks.len(),
            old(self)@.tasks[i as int].id == t@.id,
        ensures
            final(self)@ == (CloudStateView { tasks: old(self)@.tasks.update(i as int, t@), ..old(self)@ }),
    {
        proof {
            use_type_invariant(&*self);
        }
        let ghost old_ts = self@.tasks;
        let ghost tv = t@;
        let mut tasks: Vec<CloudTask> = Vec::new();
        std::mem::swap(&mut tasks, &mut self.tasks);
        tasks.set(i, t);
        let ghost nts = old_ts.update(i as int, tv);
        assert(task_views(tasks@) =~= nts);
        assert forall|a: int, b: int| 0 <= a < nts.len() && 0 <= b < nts.len() && a != b implies #[trigger] nts[a].id != #[trigger] nts[b].id by {
            assert(nts[a].id == old_ts[a].id && nts[b].id == old_ts[b].id);
        }
        self.tasks = tasks;
    }

    /// Stores `t`, replacing a task with the same id.
    fn store(&mut self, t: CloudTask)
        ensures
            final(self)@ == (CloudStateView { tasks: after_store(old(self)@.tasks, t@), ..old(self)@ }),
    {
        proof {
            use_type_invariant(&*self);
        }
        let ghost old_ts = self@.tasks;
        let ghost tv = t@;
        match self.find_task(t.id.as_str()) {
            Some(i) => {
                proof {
                    let c = choose|k: int| has_task_at(old_ts, tv.id, k);
                    assert(c == i as int);
                }
                self.replace_at(i, t);
            },
            None => {
                let mut tasks: Vec<CloudTask> = Vec::new();
                std::mem::swap(&mut tasks, &mut self.tasks);
                tasks.push(t);
                let ghost nts = old_ts.push(tv);
                assert(task_views(tasks@) =~= nts);
                assert forall|a: int, b: int| 0 <= a < nts.len() && 0 <= b < nts.len() && a != b implies #[trigger] nts[a].id != #[trigger] nts[b].id by {
                    if a < old_ts.len() && b < old_ts.len() {
                        assert(nts[a] == old_ts[a] && nts[b] == old_ts[b]);
                    } else if a < old_ts.len() {
                        assert(nts[a] == old_ts[a]);
                        assert(!has_task_at(old_ts, tv.id, a));
                    } else {
                        assert(nts[b] == old_ts[b]);
                        assert(!has_task_at(old_ts, tv.id, b));
                    }
                }
                self.tasks = tasks;
            },
        }
    }

    /// Creates a pending task for `url` on `platform` owned by `user_id`,
    /// under a fresh random id, stores it (replacing a task with the same
    /// id), publishes `TaskCreated` and returns it.
    pub fn create_task(&mut self, url: String, platform: String, user_id: String) -> (r: CloudTask)
        ensures
            is_new_task(r@, url@, platform@, user_id@),
            final(self)@.tasks == after_store(old(self)@.tasks, r@),
            final(self)@.events == old(self)@.events.push(TaskEventView::TaskCreated { task: r@ }),
            final(self)@.download_dir == old(self)@.download_dir,
            final(self)@.port == old(self)@.port,
            exists|i: int| has_task_at(final(self)@.tasks, r@.id, i),
            forall|i: int| has_task_at(final(self)@.tasks, r@.id, i) ==> final(self)@.tasks[i] == r@,
    {
        proof {
            use_type_invariant(&*self);
        }
        let ghost old_ts = self@.tasks;
        let id = fresh_uuid();
        let created_at = now();
        let updated_at = now();
        let task = CloudTask {
            id,
            url,
            platform,
            status: TaskStatus::Pending,
            progress_bits: 0,
            speed: String::from_str("0 MB/s"),
            size: String::from_str("0 MB"),
            output_path: None,
            error: None,
            created_at,
            updated_at,
            user_id,
        };
        self.store(task.clone());
        proof {
            law_store_then_find(old_ts, task@, task@.id);
        }
        let ev = task.clone();
        self.publish(TaskEvent::TaskCreated { task: ev });
        proof {
            let w = choose|i: int| has_task_at(after_store(old_ts, task@), task@.id, i);
            assert(has_task_at(self@.tasks, task@.id, w));
        }
        task
    }

    /// Records progress `progress_bits` (the bits of an `f32` percentage),
    /// `speed` and `size` for task `task_id`: the task becomes `Completed` at
    /// 100% and `Downloading` below, `TaskUpdated` is published, and the
    /// updated task returned. `None`, and no change, for an unknown id.
    pub fn update_task(&mut self, task_id: &str, progress_bits: u32, speed: String, size: String) -> (r: Option<CloudTask>)
        ensures
            match r {
                Some(t) => exists|i: int| {
                    &&& has_task_at(old(self)@.tasks, task_id@, i)
                    &&& t@ == progressed(old(self)@.tasks[i], progress_bits, speed@, size@, t@.updated_at)
                    &&& final(self)@ == (CloudStateView {
                        tasks: old(self)@.tasks.update(i, t@),
                        events: old(self)@.events.push(TaskEventView::TaskUpdated { task: t@ }),
                        ..old(self)@
                    })
                },
                None => (forall|i: int| !has_task_at(old(self)@.tasks, task_id@, i)) && final(self)@ == old(self)@,
            },
            task_ids_distinct(old(self)@.tasks),
            task_ids_distinct(final(self)@.tasks),
            r matches Some(t) ==> forall|i: int| has_task_at(final(self)@.tasks, task_id@, i) ==> final(self)@.tasks[i] == t@,
    {
        proof {
            use_type_invariant(&*self);
        }
        match self.find_task(task_id) {
            Some(i) => {
                let mut t = self.tasks[i].clone();
                t.progress_bits = progress_bits;
                t.speed = speed;
                t.size = size;
                t.updated_at = now();
                t.status = if 0x42C8_0000 <= progress_bits && progress_bits <= 0x7F80_0000 {
                    TaskStatus::Completed
                } else {
                    TaskStatus::Downloading
                };
                let updated = t.clone();
                self.replace_at(i, t);
                let ev = updated.clone();
                self.publish(TaskEvent::TaskUpdated { task: ev });
                proof {
                    use_type_invariant(&*self);
                    assert forall|j: int| has_task_at(self@.tasks, task_id@, j) implies self@.tasks[j] == updated@ by {
                        assert(self@.tasks[i as int].id == task_id@);
                    }
                }
                Some(updated)
            },
            None => None,
        }
    }

    /// Completes task `task_id` with its output at `output_path`: status
    /// `Completed`, progress 100, `TaskCompleted` published, the task
    /// returned. `None`, and no change, for an unknown id.
    pub fn complete_task(&mut self, task_id: &str, output_path: String) -> (r: Option<CloudTask>)
        ensures
            match r {
                Some(t) => exists|i: int| {
                    &&& has_task_at(old(self)@.tasks, task_id@, i)
                    &&& t@ == completed(old(self)@.tasks[i], output_path@, t@.updated_at)
                    &&& final(self)@ == (CloudStateView {
                        tasks: old(self)@.tasks.update(i, t@),
                        events: old(self)@.events.push(TaskEventView::TaskCompleted { task: t@ }),
                        ..old(self)@
                    })
                },
                None => (forall|i: int| !has_task_at(old(self)@.tasks, task_id@, i)) && final(self)@ == old(self)@,
            },
            task_ids_distinct(old(self)@.tasks),
            task_ids_distinct(final(self)@.tasks),
            r matches Some(t) ==> forall|i: int| has_task_at(final(self)@.tasks, task_id@, i) ==> final(self)@.tasks[i] == t@,
    {
        proof {
            use_type_invariant(&*self);
        }
        match self.find_task(task_id) {
            Some(i) => {
                let mut t = self.tasks[i].clone();
                t.status = TaskStatus::Completed;
                t.progress_bits = 0x42C8_0000;
                t.output_path = Some(output_path);
                t.updated_at = now();
                let updated = t.clone();
                self.replace_at(i, t);
                let ev = updated.clone();
                self.publish(TaskEvent::TaskCompleted { task: ev });
                proof {
                    use_type_invariant(&*self);
                    assert forall|j: int| has_task_at(self@.tasks, task_id@, j) implies self@.tasks[j] == updated@ by {
                        assert(self@.tasks[i as int].id == task_id@);
                    }
                }
                Some(updated)
            },
            None => None,
        }
    }

    /// Fails task `task_id` with `error`: status `Failed`, the error
    /// recorded, `TaskFailed` published with the id and error, the task
    /// returned. `None`, and no change, for an unknown id.
    pub fn fail_task(&mut self, task_id: &str, error: String) -> (r: Option<CloudTask>)
        ensures
            match r {
                Some(t) => exists|i: int| {
                    &&& has_task_at(old(self)@.tasks, task_id@, i)
                    &&& t@ == failed(old(self)@.tasks[i], error@, t@.updated_at)
                    &&& final(self)@ == (CloudStateView {
                        tasks: old(self)@.tasks.update(i, t@),
                        events: old(self)@.events.push(TaskEventView::TaskFailed { task_id: task_id@, error: error@ }),
                        ..old(self)@
                    })
                },
                None => (forall|i: int| !has_task_at(old(self)@.tasks, task_id@, i)) && final(self)@ == old(self)@,
            },
            task_ids_distinct(old(self)@.tasks),
            task_ids_distinct(final(self)@.tasks),
            r matches Some(t) ==> forall|i: int| has_task_at(final(self)@.tasks, task_id@, i) ==> final(self)@.tasks[i] == t@,
    {
        proof {
            use_type_invariant(&*self);
        }
        match self.find_task(task_id) {
            Some(i) => {
                let mut t = self.tasks[i].clone();
                t.status = TaskStatus::Failed;
                t.error = Some(error.clone());
                t.updated_at = now();
                let updated = t.clone();
                self.replace_at(i, t);
                self.publish(TaskEvent::TaskFailed { task_id: String::from_str(task_id), error });
                proof {
                    use_type_invariant(&*self);
                    assert forall|j: int| has_task_at(self@.tasks, task_id@, j) implies self@.tasks[j] == updated@ by {
                        assert(self@.tasks[i as int].id == task_id@);
                    }
                }
                Some(updated)
            },
            None => None,
        }
    }

    /// Removes task `task_id`, publishing `TaskRemoved`; whether it existed.
    pub fn remove_task(&mut self, task_id: &str) -> (r: bool)
        ensures
            r == exists|i: int| has_task_at(old(self)@.tasks, task_id@, i),
            r ==> exists|i: int| {
                &&& has_task_at(old(self)@.tasks, task_id@, i)
                &&& final(self)@ == (CloudStateView {
                    tasks: old(self)@.tasks.remove(i),
                    events: old(self)@.events.push(TaskEventView::TaskRemoved { task_id: task_id@ }),
                    ..old(self)@
                })
            },
            !r ==> final(self)@ == old(self)@,
            forall|i: int| !has_task_at(final(self)@.tasks, task_id@, i),
    {
        proof {
            use_type_invariant(&*self);
        }
        match self.find_task(task_id) {
            Some(i) => {
                let ghost old_ts = self@.tasks;
                proof {
                    law_remove_then_absent(old_ts, task_id@, i as int, task_id@);
                }
                let mut tasks: Vec<CloudTask> = Vec::new();
                std::mem::swap(&mut tasks, &mut self.tasks);
                let _gone = tasks.remove(i);
                let ghost nts = old_ts.remove(i as int);
                assert(task_views(tasks@) =~= nts);
                assert forall|a: int, b: int| 0 <= a < nts.len() && 0 <= b < nts.len() && a != b implies #[trigger] nts[a].id != #[trigger] nts[b].id by {
                    let a2 = if a < i { a } else { a + 1 };
                    let b2 = if b < i { b } else { b + 1 };
                    assert(nts[a] == old_ts[a2] && nts[b] == old_ts[b2]);
                }
                self.tasks = tasks;
                self.publish(TaskEvent::TaskRemoved { task_id: String::from_str(task_id) });
                true
            },
            None => false,
        }
    }

    /// A copy of task `task_id`.
    pub fn get_task(&self, task_id: &str) -> (r: Option<CloudTask>)
        ensures
            match r {
                Some(t) => exists|i: int| has_task_at(self@.tasks, task_id@, i) && self@.tasks[i] == t@,
                None => forall|i: int| !has_task_at(self@.tasks, task_id@, i),
            },
            task_ids_distinct(self@.tasks),
    {
        proof {
            use_type_invariant(self);
        }
        match self.find_task(task_id) {
            Some(i) => Some(self.tasks[i].clone()),
            None => None,
        }
    }

    /// Takes the published events, oldest first, for delivery to
    /// subscribers.
    pub fn take_events(&mut self) -> (r: Vec<TaskEvent>)
        ensures
            event_views(r@) == old(self)@.events,
            final(self)@ == (CloudStateView { events: Seq::empty(), ..old(self)@ }),
    {
        proof {
            use_type_invariant(&*self);
        }
        let mut events: Vec<TaskEvent> = Vec::new();
        std::mem::swap(&mut events, &mut self.events);
        assert(event_views(self.events@) =~= Seq::<TaskEventView>::empty());
        events
    }
}

/// Whether `a` is earlier than `b`.
pub fn is_earlier(a: Timestamp, b: Timestamp) -> (r: bool)
    ensures
        r == earlier(a, b),
{
    a.secs < b.secs || (a.secs == b.secs && a.nanos < b.nanos)
}

/// The tasks a listing keeps: those of `user`, or all of them.
pub open spec fn owned_by(user: Option<Seq<char>>) -> spec_fn(CloudTaskView) -> bool {
    |t: CloudTaskView|
        match user {
            Some(u) => t.user_id == u,
            None => true,
        }
}

impl CloudState {
    /// Copies of the tasks of `user` (all tasks for `None`), latest first.
    fn sorted_tasks(&self, user: Option<&str>) -> (r: Vec<CloudTask>)
        ensures
            task_views(r@).to_multiset() == self@.tasks.filter(owned_by(
                match user {
                    Some(u) => Some(u@),
                    None => None,
                },
            )).to_multiset(),
            latest_first(task_views(r@)),
    {
        let ghost uv: Option<Seq<char>> = match user {
            Some(u) => Some(u@),
            None => None,
        };
        let ghost pred = owned_by(uv);
        let ghost ts = self@.tasks;
        let n = self.tasks.len();
        let mut r: Vec<CloudTask> = Vec::new();
        let mut i: usize = 0;
        assert(task_views(r@) =~= Seq::<CloudTaskView>::empty());
        assert(ts.subrange(0, 0) =~= Seq::<CloudTaskView>::empty());
        proof {
            reveal(Seq::filter);
        }
        while i < n
            invariant
                n == ts.len(),
                ts == task_views(self.tasks@),
                pred == owned_by(uv),
                uv == match user {
                    Some(u) => Some(u@),
                    None => None::<Seq<char>>,
                },
                i <= n,
                task_views(r@).to_multiset() == ts.subrange(0, i as int).filter(pred).to_multiset(),
                latest_first(task_views(r@)),
            decreases n - i,
        {
            proof {
                reveal(Seq::filter);
                assert(ts.subrange(0, i + 1).drop_last() =~= ts.subrange(0, i as int));
                assert(ts.subrange(0, i + 1).last() == ts[i as int]);
            }
            let t = &self.tasks[i];
            let keep = match user {
                Some(u) => str_eq(t.user_id.as_str(), u),
                None => true,
            };
            assert(keep == pred(ts[i as int]));
            if keep {
                let ghost rv = task_views(r@);
                let mut pos: usize = 0;
                while pos < r.len() && !is_earlier(r[pos].created_at, t.created_at)
                    invariant
                        pos <= r@.len(),
                        rv == task_views(r@),
                        forall|k: int| 0 <= k < pos ==> !earlier(#[trigger] rv[k].created_at, t.created_at),
                    decreases r@.len() - pos,
                {
                    pos = pos + 1;
                }
                let c = t.clone();
                r.insert(pos, c);
                let ghost nv = rv.insert(pos as int, t@);
                assert(task_views(r@) =~= nv);
                assert(latest_first(nv)) by {
                    assert forall|a: int, b: int| 0 <= a < b < nv.len() implies !earlier(#[trigger] nv[a].created_at, #[trigger] nv[b].created_at) by {
                        if pos < rv.len() {
                            assert(earlier(rv[pos as int].created_at, t@.created_at));
                        }
                        if b < pos {
                            assert(nv[a] == rv[a] && nv[b] == rv[b]);
                        } else if b == pos {
                            assert(nv[a] == rv[a]);
                        } else if a < pos {
                            assert(nv[a] == rv[a] && nv[b] == rv[b - 1]);
                            assert(!earlier(rv[pos as int].created_at, rv[b - 1].created_at) || pos == b - 1);
                        } else if a == pos {
                            assert(nv[b] == rv[b - 1]);
                            assert(!earlier(rv[pos as int].created_at, rv[b - 1].created_at) || pos == b - 1);
                        } else {
                            assert(nv[a] == rv[a - 1] && nv[b] == rv[b - 1]);
                        }
                    }
                }
            }
            i = i + 1;
        }
        assert(ts.subrange(0, n as int) =~= ts);
        r
    }

    /// Copies of all tasks, latest first.
    pub fn list_tasks(&self) -> (r: Vec<CloudTask>)
        ensures
            task_views(r@).to_multiset() == self@.tasks.to_multiset(),
            latest_first(task_views(r@)),
    {
        let r = self.sorted_tasks(None);
        proof {
            let p = owned_by(None);
            assert forall|k: int| 0 <= k < self@.tasks.len() implies p(#[trigger] self@.tasks[k]) by {}
            lemma_filter_all(self@.tasks, p);
        }
        r
    }

    /// Copies of the tasks of `user_id`, latest first.
    pub fn list_tasks_by_user(&self, user_id: &str) -> (r: Vec<CloudTask>)
        ensures
            task_views(r@).to_multiset() == self@.tasks.filter(|t: CloudTaskView| t.user_id == user_id@).to_multiset(),
            latest_first(task_views(r@)),
    {
        let r = self.sorted_tasks(Some(user_id));
        assert(owned_by(Some(user_id@)) =~= (|t: CloudTaskView| t.user_id == user_id@));
        r
    }
}

/// Storing a task keeps ids unique; looking its id up afterwards finds that
/// task and nothing else, and every other id finds what it found before.
pub proof fn law_store_then_find(ts: Seq<CloudTaskView>, t: CloudTaskView, id: Seq<char>)
    requires
        task_ids_distinct(ts),
    ensures
        task_ids_distinct(after_store(ts, t)),
        exists|i: int| has_task_at(after_store(ts, t), t.id, i),
        forall|i: int| has_task_at(after_store(ts, t), t.id, i) ==> after_store(ts, t)[i] == t,
        id != t.id ==> forall|i: int| #[trigger] has_task_at(after_store(ts, t), id, i)
            ==> exists|j: int| has_task_at(ts, id, j) && ts[j] == after_store(ts, t)[i],
        id != t.id ==> forall|j: int| #[trigger] has_task_at(ts, id, j)
            ==> exists|i: int| has_task_at(after_store(ts, t), id, i) && after_store(ts, t)[i] == ts[j],
{
    let a = after_store(ts, t);
    if exists|i: int| has_task_at(ts, t.id, i) {
        let c = choose|i: int| has_task_at(ts, t.id, i);
        assert(a == ts.update(c, t));
        assert(has_task_at(a, t.id, c));
        assert forall|i: int| has_task_at(a, t.id, i) implies a[i] == t by {
            if i != c {
                assert(a[i] == ts[i]);
                assert(ts[i].id == ts[c].id);
            }
        }
        assert forall|x: int, y: int| 0 <= x < a.len() && 0 <= y < a.len() && x != y implies #[trigger] a[x].id != #[trigger] a[y].id by {
            assert(a[x].id == ts[x].id && a[y].id == ts[y].id);
        }
        if id != t.id {
            assert forall|i: int| #[trigger] has_task_at(a, id, i) implies exists|j: int| has_task_at(ts, id, j) && ts[j] == a[i] by {
                assert(i != c);
                assert(has_task_at(ts, id, i));
            }
            assert forall|j: int| #[trigger] has_task_at(ts, id, j) implies exists|i: int| has_task_at(a, id, i) && a[i] == ts[j] by {
                assert(j != c);
                assert(has_task_at(a, id, j));
            }
        }
    } else {
        assert(a == ts.push(t));
        assert(has_task_at(a, t.id, ts.len() as int));
        assert forall|i: int| has_task_at(a, t.id, i) implies a[i] == t by {
            if i < ts.len() {
                assert(has_task_at(ts, t.id, i));
            }
        }
        assert forall|x: int, y: int| 0 <= x < a.len() && 0 <= y < a.len() && x != y implies #[trigger] a[x].id != #[trigger] a[y].id by {
            if x < ts.len() && y < ts.len() {
                assert(a[x] == ts[x] && a[y] == ts[y]);
            } else if x < ts.len() {
                assert(a[x] == ts[x]);
                assert(!has_task_at(ts, t.id, x));
            } else {
                assert(a[y] == ts[y]);
                assert(!has_task_at(ts, t.id, y));
            }
        }
        if id != t.id {
            assert forall|i: int| #[trigger] has_task_at(a, id, i) implies exists|j: int| has_task_at(ts, id, j) && ts[j] == a[i] by {
                assert(has_task_at(ts, id, i));
            }
            assert forall|j: int| #[trigger] has_task_at(ts, id, j) implies exists|i: int| has_task_at(a, id, i) && a[i] == ts[j] by {
                assert(has_task_at(a, id, j));
            }
        }
    }
}

/// Removing the task with an id leaves no task with that id, keeps ids
/// unique, and leaves every other task in place.
pub proof fn law_remove_then_absent(ts: Seq<CloudTaskView>, id: Seq<char>, i: int, other: Seq<char>)
    requires
        task_ids_distinct(ts),
        has_task_at(ts, id, i),
    ensures
        task_ids_distinct(ts.remove(i)),
        forall|j: int| !has_task_at(ts.remove(i), id, j),
        other != id ==> forall|j: int| #[trigger] has_task_at(ts, other, j)
            ==> exists|k: int| has_task_at(ts.remove(i), other, k) && ts.remove(i)[k] == ts[j],
{
    let r = ts.remove(i);
    assert forall|j: int| !has_task_at(r, id, j) by {
        if 0 <= j < r.len() {
            let j2 = if j < i { j } else { j + 1 };
            assert(r[j] == ts[j2]);
        }
    }
    assert forall|x: int, y: int| 0 <= x < r.len() && 0 <= y < r.len() && x != y implies #[trigger] r[x].id != #[trigger] r[y].id by {
        let x2 = if x < i { x } else { x + 1 };
        let y2 = if y < i { y } else { y + 1 };
        assert(r[x] == ts[x2] && r[y] == ts[y2]);
    }
    if other != id {
        assert forall|j: int| #[trigger] has_task_at(ts, other, j) implies exists|k: int| has_task_at(r, other, k) && r[k] == ts[j] by {
            assert(j != i);
            let k = if j < i { j } else { j - 1 };
            assert(r[k] == ts[j]);
            assert(has_task_at(r, other, k));
        }
    }
}

/// A progress report completes the task exactly when it reaches 100%.
pub proof fn law_progress_completes(t: CloudTaskView, bits: u32, speed: Seq<char>, size: Seq<char>, at: Timestamp)
    ensures
        (progressed(t, bits, speed, size, at).status == TaskStatus::Completed) == at_least_hundred(bits),
        !at_least_hundred(bits) ==> progressed(t, bits, speed, size, at).status == TaskStatus::Downloading,
{
}

/// A completed task is at 100%, and a failed one keeps its progress.
pub proof fn law_completed_is_full(t: CloudTaskView, output_path: Seq<char>, error: Seq<char>, at: Timestamp)
    ensures
        completed(t, output_path, at).status == TaskStatus::Completed,
        at_least_hundred(completed(t, output_path, at).progress_bits),
        failed(t, error, at).progress_bits == t.progress_bits,
{
}

/// Filtering with a predicate that holds everywhere keeps everything.
pub proof fn lemma_filter_all<A>(s: Seq<A>, p: spec_fn(A) -> bool)
    requires
        forall|k: int| 0 <= k < s.len() ==> p(#[trigger] s[k]),
    ensures
        s.filter(p) == s,
    decreases s.len(),
{
    reveal(Seq::filter);
    if s.len() > 0 {
        lemma_filter_all(s.drop_last(), p);
        assert(s.drop_last().push(s.last()) =~= s);
    } else {
        assert(s.filter(p) =~= s);
    }
}

} // verus!
