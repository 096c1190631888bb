//! The answers of the cloud API: request handling over the task store,
//! platform detection and statistics.

use vstd::prelude::*;
use vstd::string::StringExecFns;
use crate::text::{contains_seq, contains_str, opt_view, views};
use crate::cloud::state::{
    after_store, after_stores, created_events, fresh_uuid, has_task_at, is_new_task, owned_by,
    task_views, CloudState, CloudTask, CloudTaskView, TaskEventView, TaskStatus, failed, latest_first,
};

verus! {

/// The envelope of every API answer.
#[derive(Debug)]
pub struct ApiResponse<T> {
    pub success: bool,
    pub data: Option<T>,
    pub error: Option<String>,
}

impl<T> ApiResponse<T> {
    /// A successful answer carrying `data`.
    pub fn success(data: T) -> (r: Self)
        ensures
            r.success,
            r.data == Some(data),
            r.error is None,
    {
        ApiResponse { success: true, data: Some(data), error: None }
    }

    /// A failed answer with message `msg`.
    pub fn error(msg: &str) -> (r: Self)
        ensures
            !r.success,
            r.data is None,
            opt_view(r.error) == Some(msg@),
    {
        ApiResponse { success: false, data: None, error: Some(String::from_str(msg)) }
    }
}

/// A request to create a task.
#[derive(Debug)]
pub struct CreateTaskRequest {
    pub url: String,
    pub platform: Option<String>,
    pub user_id: Option<String>,
}

/// A request to create a task for each of several URLs.
#[derive(Debug)]
pub struct BatchCreateRequest {
    pub urls: Vec<String>,
    pub platform: Option<String>,
    pub user_id: Option<String>,
}

/// The query of a task listing.
#[derive(Debug)]
pub struct ListParams {
    pub user_id: Option<String>,
}

/// Task counts by status.
#[derive(Clone, Copy, Debug, PartialEq, Eq, Structural)]
pub struct Stats {
    pub total: usize,
    pub pending: usize,
    pub downloading: usize,
    pub completed: usize,
    pub failed: usize,
}

/// A platform the service knows.
#[derive(Debug)]
pub struct PlatformInfo {
    pub id: String,
    pub name: String,
    pub icon: String,
}

/// The platform of a URL, by the host names it contains; "general" when none
/// is known.
pub open spec fn platform_of(url: Seq<char>) -> Seq<char> {
    if contains_seq(url, "bilibili.com"@) || contains_seq(url, "b23.tv"@) {
        "bilibili"@
    } else if contains_seq(url, "youtube.com"@) || contains_seq(url, "youtu.be"@) {
        "youtube"@
    } else if contains_seq(url, "douyin.com"@) {
        "douyin"@
    } else if contains_seq(url, "weibo.com"@) {
        "weibo"@
    } else if contains_seq(url, "ixigua.com"@) {
        "ixigua"@
    } else {
        "general"@
    }
}

/// The platform of `url`.
pub fn detect_platform(url: &str) -> (r: String)
    ensures
        r@ == platform_of(url@),
{
    if contains_str(url, "bilibili.com") || contains_str(url, "b23.tv") {
        String::from_str("bilibili")
    } else if contains_str(url, "youtube.com") || contains_str(url, "youtu.be") {
        String::from_str("youtube")
    } else if contains_str(url, "douyin.com") {
        String::from_str("douyin")
    } else if contains_str(url, "weibo.com") {
        String::from_str("weibo")
    } else if contains_str(url, "ixigua.com") {
        String::from_str("ixigua")
    } else {
        String::from_str("general")
    }
}

/// The number of tasks with status `st`.
pub open spec fn count_status(ts: Seq<CloudTaskView>, st: TaskStatus) -> nat
    decreases ts.len(),
{
    if ts.len() == 0 {
        0
    } else {
        count_status(ts.drop_last(), st) + if ts.last().status == st {
            1nat
        } else {
            0nat
        }
    }
}

pub proof fn lemma_count_status_bound(ts: Seq<CloudTaskView>, st: TaskStatus)
    ensures
        count_status(ts, st) <= ts.len(),
    decreases ts.len(),
{
    if ts.len() > 0 {
        lemma_count_status_bound(ts.drop_last(), st);
    }
}

/// Law: the platform of a URL by the first host of this table that it
/// contains: bilibili.com and b23.tv give "bilibili"; youtube.com and
/// youtu.be "youtube"; douyin.com "douyin"; weibo.com "weibo"; ixigua.com
/// "ixigua"; a URL with none of them "general".
pub proof fn law_platform_hosts(url: Seq<char>)
    ensures
        contains_seq(url, "bilibili.com"@) || contains_seq(url, "b23.tv"@) ==> platform_of(url) == "bilibili"@,
        !contains_seq(url, "bilibili.com"@) && !contains_seq(url, "b23.tv"@)
            && (contains_seq(url, "youtube.com"@) || contains_seq(url, "youtu.be"@)) ==> platform_of(url) == "youtube"@,
        !contains_seq(url, "bilibili.com"@) && !contains_seq(url, "b23.tv"@)
            && !contains_seq(url, "youtube.com"@) && !contains_seq(url, "youtu.be"@)
            && contains_seq(url, "douyin.com"@) ==> platform_of(url) == "douyin"@,
        !contains_seq(url, "bilibili.com"@) && !contains_seq(url, "b23.tv"@)
            && !contains_seq(url, "youtube.com"@) && !contains_seq(url, "youtu.be"@)
            && !contains_seq(url, "douyin.com"@) && contains_seq(url, "weibo.com"@) ==> platform_of(url) == "weibo"@,
        !contains_seq(url, "bilibili.com"@) && !contains_seq(url, "b23.tv"@)
            && !contains_seq(url, "youtube.com"@) && !contains_seq(url, "youtu.be"@)
            && !contains_seq(url, "douyin.com"@) && !contains_seq(url, "weibo.com"@)
            && contains_seq(url, "ixigua.com"@) ==> platform_of(url) == "ixigua"@,
        !contains_seq(url, "bilibili.com"@) && !contains_seq(url, "b23.tv"@)
            && !contains_seq(url, "youtube.com"@) && !contains_seq(url, "youtu.be"@)
            && !contains_seq(url, "douyin.com"@) && !contains_seq(url, "weibo.com"@)
            && !contains_seq(url, "ixigua.com"@) ==> platform_of(url) == "general"@,
{
}

/// Every task has exactly one status: the counts of the five statuses add
/// up to the number of tasks, so the counts in the statistics never exceed
/// the total.
pub proof fn law_status_counts_partition(ts: Seq<CloudTaskView>)
    ensures
        count_status(ts, TaskStatus::Pending) + count_status(ts, TaskStatus::Downloading)
            + count_status(ts, TaskStatus::Completed) + count_status(ts, TaskStatus::Failed)
            + count_status(ts, TaskStatus::Cancelled) == ts.len(),
    decreases ts.len(),
{
    if ts.len() > 0 {
        law_status_counts_partition(ts.drop_last());
    }
}

/// The statistics of `ts`: the total and the counts of the pending,
/// downloading, completed and failed tasks.
pub open spec fn stats_of(ts: Seq<CloudTaskView>) -> Stats {
    Stats {
        total: ts.len() as usize,
        pending: count_status(ts, TaskStatus::Pending) as usize,
        downloading: count_status(ts, TaskStatus::Downloading) as usize,
        completed: count_status(ts, TaskStatus::Completed) as usize,
        failed: count_status(ts, TaskStatus::Failed) as usize,
    }
}

/// The statistics of the tasks `tasks`.
pub fn compute_stats(tasks: &Vec<CloudTask>) -> (r: Stats)
    ensures
        r == stats_of(task_views(tasks@)),
{
    let ghost ts = task_views(tasks@);
    let n = tasks.len();
    let mut pending: usize = 0;
    let mut downloading: usize = 0;
    let mut completed: usize = 0;
    let mut failed_n: usize = 0;
    let mut i: usize = 0;
    while i < n
        invariant
            n == tasks@.len(),
            ts == task_views(tasks@),
            i <= n,
            pending == count_status(ts.subrange(0, i as int), TaskStatus::Pending),
            downloading == count_status(ts.subrange(0, i as int), TaskStatus::Downloading),
            completed == count_status(ts.subrange(0, i as int), TaskStatus::Completed),
            failed_n == count_status(ts.subrange(0, i as int), TaskStatus::Failed),
        decreases n - i,
    {
        proof {
            let sub = ts.subrange(0, i + 1);
            assert(sub.drop_last() =~= ts.subrange(0, i as int));
            lemma_count_status_bound(ts.subrange(0, i as int), TaskStatus::Pending);
            lemma_count_status_bound(ts.subrange(0, i as int), TaskStatus::Downloading);
            lemma_count_status_bound(ts.subrange(0, i as int), TaskStatus::Completed);
            lemma_count_status_bound(ts.subrange(0, i as int), TaskStatus::Failed);
        }
        match tasks[i].status {
            TaskStatus::Pending => pending = pending + 1,
            TaskStatus::Downloading => downloading = downloading + 1,
            TaskStatus::Completed => completed = completed + 1,
            TaskStatus::Failed => failed_n = failed_n + 1,
            TaskStatus::Cancelled => {},
        }
        i = i + 1;
    }
    assert(ts.subrange(0, n as int) =~= ts);
    Stats { total: n, pending, downloading, completed, failed: failed_n }
}

/// The platforms the service lists.
pub open spec fn platform_table() -> Seq<(Seq<char>, Seq<char>, Seq<char>)> {
    seq![
        ("bilibili"@, "哔哩哔哩"@, "📺"@),
        ("youtube"@, "YouTube"@, "▶️"@),
        ("douyin"@, "抖音"@, "🎵"@),
        ("weibo"@, "微博视频"@, "🌐"@),
        ("ixigua"@, "西瓜视频"@, "🍉"@),
        ("general"@, "通用下载"@, "⬇️"@),
    ]
}

pub open spec fn platform_views(v: Seq<PlatformInfo>) -> Seq<(Seq<char>, Seq<char>, Seq<char>)> {
    v.map_values(|p: PlatformInfo| (p.id@, p.name@, p.icon@))
}

fn platform(id: &str, name: &str, icon: &str) -> (r: PlatformInfo)
    ensures
        r.id@ == id@,
        r.name@ == name@,
        r.icon@ == icon@,
{
    PlatformInfo { id: String::from_str(id), name: String::from_str(name), icon: String::from_str(icon) }
}

// ---------------------------------------------------------------------------
// Request handling
// ---------------------------------------------------------------------------

/// Health check: always a success.
pub fn api_health(state: &CloudState) -> (r: ApiResponse<()>)
    ensures
        r.success && r.data == Some(()) && r.error is None,
{
    let _tasks = state.list_tasks();
    ApiResponse::success(())
}

/// The tasks of `params.user_id`, or all tasks, latest first.
pub fn api_list_tasks(state: &CloudState, params: &ListParams) -> (r: ApiResponse<Vec<CloudTask>>)
    ensures
        r.success,
        r.error is None,
        r.data is Some,
        task_views(r.data->0@).to_multiset() == state@.tasks.filter(owned_by(opt_view(params.user_id))).to_multiset(),
        latest_first(task_views(r.data->0@)),
{
    match &params.user_id {
        Some(u) => {
            let tasks = state.list_tasks_by_user(u.as_str());
            assert(owned_by(Some(u@)) =~= (|t: CloudTaskView| t.user_id == u@));
            ApiResponse::success(tasks)
        },
        None => {
            let tasks = state.list_tasks();
            proof {
                crate::cloud::state::lemma_filter_all(state@.tasks, owned_by(None));
            }
            ApiResponse::success(tasks)
        },
    }
}

/// Creates a task for `req.url`: the platform is the one requested, or the
/// one detected from the URL; the owner is the one requested, or a fresh
/// random id.
pub fn api_create_task(state: &mut CloudState, req: CreateTaskRequest) -> (r: ApiResponse<CloudTask>)
    ensures
        r.success,
        r.error is None,
        r.data is Some,
        is_new_task(
            r.data->0@,
            req.url@,
            match req.platform {
                Some(p) => p@,
                None => platform_of(req.url@),
            },
            r.data->0@.user_id,
        ),
        req.user_id is Some ==> r.data->0@.user_id == req.user_id->0@,
        final(state)@.tasks == after_store(old(state)@.tasks, r.data->0@),
        final(state)@.events == old(state)@.events.push(TaskEventView::TaskCreated { task: r.data->0@ }),
        final(state)@.download_dir == old(state)@.download_dir,
        final(state)@.port == old(state)@.port,
{
    let CreateTaskRequest { url, platform, user_id } = req;
    let user_id = match user_id {
        Some(u) => u,
        None => fresh_uuid(),
    };
    let platform = match platform {
        Some(p) => p,
        None => detect_platform(url.as_str()),
    };
    let task = state.create_task(url, platform, user_id);
    ApiResponse::success(task)
}

/// Task `task_id`, or the error "任务不存在".
pub fn api_get_task(state: &CloudState, task_id: &str) -> (r: ApiResponse<CloudTask>)
    ensures
        match r.data {
            Some(t) => r.success && r.error is None && exists|i: int| has_task_at(state@.tasks, task_id@, i) && state@.tasks[i] == t@,
            None => !r.success && opt_view(r.error) == Some("任务不存在"@) && forall|i: int| !has_task_at(state@.tasks, task_id@, i),
        },
{
    match state.get_task(task_id) {
        Some(t) => ApiResponse::success(t),
        None => ApiResponse::error("任务不存在"),
    }
}

/// Removes task `task_id`; the error "任务不存在" when there is none.
pub fn api_delete_task(state: &mut CloudState, task_id: &str) -> (r: ApiResponse<()>)
    ensures
        r.success == exists|i: int| has_task_at(old(state)@.tasks, task_id@, i),
        r.success ==> r.data == Some(()) && r.error is None,
        !r.success ==> r.data is None && opt_view(r.error) == Some("任务不存在"@) && final(state)@ == old(state)@,
        final(state)@.tasks.len() == if r.success { old(state)@.tasks.len() - 1 } else { old(state)@.tasks.len() as int },
{
    if state.remove_task(task_id) {
        ApiResponse::success(())
    } else {
        ApiResponse::error("任务不存在")
    }
}

/// Cancels task `task_id`: it fails with the error "用户取消". The error
/// "任务不存在" when there is no such task.
pub fn api_cancel_task(state: &mut CloudState, task_id: &str) -> (r: ApiResponse<CloudTask>)
    ensures
        match r.data {
            Some(t) => r.success && r.error is None && exists|i: int| {
                &&& has_task_at(old(state)@.tasks, task_id@, i)
                &&& t@ == failed(old(state)@.tasks[i], "用户取消"@, t@.updated_at)
                &&& final(state)@.tasks == old(state)@.tasks.update(i, t@)
            },
            None => !r.success && opt_view(r.error) == Some("任务不存在"@) && final(state)@ == old(state)@,
        },
{
    match state.fail_task(task_id, String::from_str("用户取消")) {
        Some(t) => ApiResponse::success(t),
        None => ApiResponse::error("任务不存在"),
    }
}

/// Creates a task for each URL of `req`, in order, on the requested platform
/// or "auto", all owned by the requested user or by one fresh random id.
pub fn api_batch_create(state: &mut CloudState, req: BatchCreateRequest) -> (r: ApiResponse<Vec<CloudTask>>)
    ensures
        r.success,
        r.error is None,
        r.data is Some,
        r.data->0@.len() == req.urls@.len(),
        forall|i: int| 0 <= i < req.urls@.len() ==> is_new_task(
            #[trigger] r.data->0@[i]@,
            req.urls@[i]@,
            match req.platform {
                Some(p) => p@,
                None => "auto"@,
            },
            r.data->0@[0]@.user_id,
        ),
        req.user_id is Some && req.urls@.len() > 0 ==> r.data->0@[0]@.user_id == req.user_id->0@,
        final(state)@.tasks == after_stores(old(state)@.tasks, task_views(r.data->0@)),
        final(state)@.events == old(state)@.events + created_events(task_views(r.data->0@)),
        final(state)@.download_dir == old(state)@.download_dir,
        final(state)@.port == old(state)@.port,
{
    let BatchCreateRequest { urls, platform, user_id } = req;
    let user_id = match user_id {
        Some(u) => u,
        None => fresh_uuid(),
    };
    let platform = match platform {
        Some(p) => p,
        None => String::from_str("auto"),
    };
    let mut tasks: Vec<CloudTask> = Vec::new();
    let mut i: usize = 0;
    while i < urls.len()
        invariant
            i <= urls@.len(),
            tasks@.len() == i,
            forall|k: int| 0 <= k < i ==> is_new_task(#[trigger] tasks@[k]@, urls@[k]@, platform@, user_id@),
            state@.tasks == after_stores(old(state)@.tasks, task_views(tasks@)),
            state@.events == old(state)@.events + created_events(task_views(tasks@)),
            state@.download_dir == old(state)@.download_dir,
            state@.port == old(state)@.port,
        decreases urls@.len() - i,
    {
        let ghost before = task_views(tasks@);
        let ghost events_before = state@.events;
        let task = state.create_task(urls[i].clone(), platform.clone(), user_id.clone());
        let ghost tv = task@;
        tasks.push(task);
        proof {
            assert(task_views(tasks@) =~= before.push(tv));
            assert(task_views(tasks@).drop_last() =~= before);
            assert(created_events(task_views(tasks@)) =~= created_events(before).push(TaskEventView::TaskCreated { task: tv }));
            assert(state@.events =~= old(state)@.events + created_events(task_views(tasks@)));
        }
        i = i + 1;
    }
    ApiResponse::success(tasks)
}

/// The statistics of all tasks.
pub fn api_stats(state: &CloudState) -> (r: ApiResponse<Stats>)
    ensures
        r.success,
        r.error is None,
        r.data is Some,
        r.data->0.total == state@.tasks.len(),
        r.data->0.pending == count_status(state@.tasks, TaskStatus::Pending),
        r.data->0.downloading == count_status(state@.tasks, TaskStatus::Downloading),
        r.data->0.completed == count_status(state@.tasks, TaskStatus::Completed),
        r.data->0.failed == count_status(state@.tasks, TaskStatus::Failed),
{
    let tasks = state.list_tasks();
    let stats = compute_stats(&tasks);
    let n = tasks.len();
    proof {
        broadcast use vstd::seq_lib::group_to_multiset_ensures;
        let a = task_views(tasks@);
        let b = state@.tasks;
        assert(a.len() == a.to_multiset().len());
        assert(b.len() == b.to_multiset().len());
        lemma_count_status_perm(a, b, TaskStatus::Pending);
        lemma_count_status_perm(a, b, TaskStatus::Downloading);
        lemma_count_status_perm(a, b, TaskStatus::Completed);
        lemma_count_status_perm(a, b, TaskStatus::Failed);
        lemma_count_status_bound(a, TaskStatus::Pending);
        lemma_count_status_bound(a, TaskStatus::Downloading);
        lemma_count_status_bound(a, TaskStatus::Completed);
        lemma_count_status_bound(a, TaskStatus::Failed);
        assert(a.len() == n);
    }
    ApiResponse::success(stats)
}

/// The number of tasks with status `st` is the number of those in the
/// multiset of the tasks.
pub proof fn lemma_count_status_multiset(ts: Seq<CloudTaskView>, st: TaskStatus)
    ensures
        count_status(ts, st) == ts.to_multiset().filter(|t: CloudTaskView| t.status == st).len(),
    decreases ts.len(),
{
    broadcast use vstd::seq_lib::group_to_multiset_ensures;
    broadcast use vstd::multiset::group_multiset_properties;
    let f = |t: CloudTaskView| t.status == st;
    if ts.len() == 0 {
        assert(ts.to_multiset() =~= vstd::multiset::Multiset::empty());
        assert(ts.to_multiset().filter(f) =~= vstd::multiset::Multiset::empty());
    } else {
        let t = ts.drop_last();
        lemma_count_status_multiset(t, st);
        assert(t.push(ts.last()) =~= ts);
        assert(ts.to_multiset() =~= t.to_multiset().insert(ts.last()));
        if f(ts.last()) {
            assert(ts.to_multiset().filter(f) =~= t.to_multiset().filter(f).insert(ts.last()));
        } else {
            assert(ts.to_multiset().filter(f) =~= t.to_multiset().filter(f));
        }
    }
}

/// Sequences with the same elements have the same counts.
pub proof fn lemma_count_status_perm(a: Seq<CloudTaskView>, b: Seq<CloudTaskView>, st: TaskStatus)
    requires
        a.to_multiset() == b.to_multiset(),
    ensures
        count_status(a, st) == count_status(b, st),
{
    lemma_count_status_multiset(a, st);
    lemma_count_status_multiset(b, st);
}

/// The platforms the service knows.
pub fn api_platforms() -> (r: ApiResponse<Vec<PlatformInfo>>)
    ensures
        r.success,
        r.error is None,
        r.data is Some,
        platform_views(r.data->0@) == platform_table(),
{
    let mut v: Vec<PlatformInfo> = Vec::new();
    v.push(platform("bilibili", "哔哩哔哩", "📺"));
    v.push(platform("youtube", "YouTube", "▶️"));
    v.push(platform("douyin", "抖音", "🎵"));
    v.push(platform("weibo", "微博视频", "🌐"));
    v.push(platform("ixigua", "西瓜视频", "🍉"));
    v.push(platform("general", "通用下载", "⬇️"));
    assert(platform_views(v@) =~= platform_table());
    ApiResponse::success(v)
}

} // verus!
