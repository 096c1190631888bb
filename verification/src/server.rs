//! The HTTP API of the local server: its requests and replies, the task
//! table it keeps, and what each route answers.

use vstd::prelude::*;
use vstd::string::StringExecFns;
use crate::cloud::state::{fresh_uuid, now, Timestamp};
use crate::text::{ascii_lower, clone_opt_string, clone_strings, contains_seq, contains_str, is_ascii_seq, opt_view, str_eq, to_lowercase, lowercase, views};

verus! {

/// A download request.
#[derive(Debug)]
pub struct DownloadRequest {
    pub url: String,
    pub extractor: Option<String>,
    pub quality: Option<String>,
    pub format: Option<String>,
}

pub struct DownloadRequestView {
    pub url: Seq<char>,
    pub extractor: Option<Seq<char>>,
    pub quality: Option<Seq<char>>,
    pub format: Option<Seq<char>>,
}

impl View for DownloadRequest {
    type V = DownloadRequestView;

    open spec fn view(&self) -> DownloadRequestView {
        DownloadRequestView {
            url: self.url@,
            extractor: opt_view(self.extractor),
            quality: opt_view(self.quality),
            format: opt_view(self.format),
        }
    }
}

/// The reply to a download request.
#[derive(Debug)]
pub struct DownloadResponse {
    pub success: bool,
    pub task_id: Option<String>,
    pub message: Option<String>,
    pub error: Option<String>,
}

pub struct DownloadResponseView {
    pub success: bool,
    pub task_id: Option<Seq<char>>,
    pub message: Option<Seq<char>>,
    pub error: Option<Seq<char>>,
}

impl View for DownloadResponse {
    type V = DownloadResponseView;

    open spec fn view(&self) -> DownloadResponseView {
        DownloadResponseView {
            success: self.success,
            task_id: opt_view(self.task_id),
            message: opt_view(self.message),
            error: opt_view(self.error),
        }
    }
}

/// A task of the server. The progress, a percentage, is held as the bit
/// pattern of its `f32` value.
#[derive(Debug)]
pub struct TaskInfo {
    pub id: String,
    pub url: String,
    pub title: String,
    pub platform: String,
    pub status: String,
    pub progress_bits: u32,
    pub speed: Option<String>,
    pub error: Option<String>,
    pub created_at: Timestamp,
    pub output_path: Option<String>,
}

pub struct TaskInfoView {
    pub id: Seq<char>,
    pub url: Seq<char>,
    pub title: Seq<char>,
    pub platform: Seq<char>,
    pub status: Seq<char>,
    pub progress_bits: u32,
    pub speed: Option<Seq<char>>,
    pub error: Option<Seq<char>>,
    pub created_at: Timestamp,
    pub output_path: Option<Seq<char>>,
}

impl View for TaskInfo {
    type V = TaskInfoView;

    open spec fn view(&self) -> TaskInfoView {
        TaskInfoView {
            id: self.id@,
            url: self.url@,
            title: self.title@,
            platform: self.platform@,
            status: self.status@,
            progress_bits: self.progress_bits,
            speed: opt_view(self.speed),
            error: opt_view(self.error),
            created_at: self.created_at,
            output_path: opt_view(self.output_path),
        }
    }
}

impl Clone for TaskInfo {
    fn clone(&self) -> (r: Self)
        ensures
            r@ == self@,
    {
        TaskInfo {
            id: self.id.clone(),
            url: self.url.clone(),
            title: self.title.clone(),
            platform: self.platform.clone(),
            status: self.status.clone(),
            progress_bits: self.progress_bits,
            speed: clone_opt_string(&self.speed),
            error: clone_opt_string(&self.error),
            created_at: self.created_at,
            output_path: clone_opt_string(&self.output_path),
        }
    }
}

/// An extension as the server lists it.
#[derive(Debug)]
pub struct ExtensionInfo {
    pub id: String,
    pub name: String,
    pub version: String,
    pub description: String,
    pub platforms: Vec<String>,
    pub enabled: bool,
    pub ai_capable: bool,
}

pub struct ExtensionInfoView {
    pub id: Seq<char>,
    pub name: Seq<char>,
    pub version: Seq<char>,
    pub description: Seq<char>,
    pub platforms: Seq<Seq<char>>,
    pub enabled: bool,
    pub ai_capable: bool,
}

impl View for ExtensionInfo {
    type V = ExtensionInfoView;

    open spec fn view(&self) -> ExtensionInfoView {
        ExtensionInfoView {
            id: self.id@,
            name: self.name@,
            version: self.version@,
            description: self.description@,
            platforms: views(self.platforms@),
            enabled: self.enabled,
            ai_capable: self.ai_capable,
        }
    }
}

impl Clone for ExtensionInfo {
    fn clone(&self) -> (r: Self)
        ensures
            r@ == self@,
    {
        ExtensionInfo {
            id: self.id.clone(),
            name: self.name.clone(),
            version: self.version.clone(),
            description: self.description.clone(),
            platforms: clone_strings(&self.platforms),
            enabled: self.enabled,
            ai_capable: self.ai_capable,
        }
    }
}

/// A compression request.
#[derive(Debug)]
pub struct CompressRequest {
    pub input: String,
    pub output: Option<String>,
    pub crf: Option<u32>,
    pub preset: Option<String>,
    pub format: Option<String>,
}

/// A batch of download requests.
#[derive(Debug)]
pub struct BatchRequest {
    pub urls: Vec<DownloadRequest>,
    pub concurrent: Option<usize>,
}

pub open spec fn task_info_views(v: Seq<TaskInfo>) -> Seq<TaskInfoView> {
    v.map_values(|t: TaskInfo| t@)
}

pub open spec fn extension_info_views(v: Seq<ExtensionInfo>) -> Seq<ExtensionInfoView> {
    v.map_values(|e: ExtensionInfo| e@)
}

pub open spec fn response_views(v: Seq<DownloadResponse>) -> Seq<DownloadResponseView> {
    v.map_values(|r: DownloadResponse| r@)
}

/// No two tasks share an id.
pub open spec fn info_ids_distinct(ts: Seq<TaskInfoView>) -> bool {
    forall|a: int, b: int| 0 <= a < ts.len() && 0 <= b < ts.len() && a != b ==> #[trigger] ts[a].id != #[trigger] ts[b].id
}

/// Task `i` has id `id`.
pub open spec fn has_info_at(ts: Seq<TaskInfoView>, id: Seq<char>, i: int) -> bool {
    0 <= i < ts.len() && ts[i].id == id
}

/// Some task has id `id`.
pub open spec fn has_info(ts: Seq<TaskInfoView>, id: Seq<char>) -> bool {
    exists|i: int| has_info_at(ts, id, i)
}

/// The tasks after putting `t` in: a task with the same id is replaced.
pub open spec fn after_put(ts: Seq<TaskInfoView>, t: TaskInfoView) -> Seq<TaskInfoView> {
    if has_info(ts, t.id) {
        ts.update(choose|i: int| has_info_at(ts, t.id, i), t)
    } else {
        ts.push(t)
    }
}

/// The tasks after putting each of `items` in, in order.
pub open spec fn after_puts(ts: Seq<TaskInfoView>, items: Seq<TaskInfoView>) -> Seq<TaskInfoView>
    decreases items.len(),
{
    if items.len() == 0 {
        ts
    } else {
        after_put(after_puts(ts, items.drop_last()), items.last())
    }
}

/// The platform the server records for a URL, given the URL in lower case
/// and the extractor asked for: a known site named in the URL wins over the
/// extractor.
pub open spec fn server_platform(url_lower: Seq<char>, extractor: Seq<char>) -> Seq<char> {
    if contains_seq(url_lower, "bilibili"@) {
        "bilibili"@
    } else if contains_seq(url_lower, "youtube"@) {
        "youtube"@
    } else if contains_seq(url_lower, "douyin"@) || contains_seq(url_lower, "tiktok"@) {
        "douyin"@
    } else {
        extractor
    }
}

/// Law: the platform the server records for a URL in lower case: one that
/// contains "bilibili" is "bilibili"; else one that contains "youtube" is
/// "youtube"; else one that contains "douyin" or "tiktok" is "douyin",
/// whatever extractor was asked for; any other keeps the extractor asked for.
pub proof fn law_server_platform_by_url(url_lower: Seq<char>, extractor: Seq<char>)
    ensures
        contains_seq(url_lower, "bilibili"@) ==> server_platform(url_lower, extractor) == "bilibili"@,
        !contains_seq(url_lower, "bilibili"@) && contains_seq(url_lower, "youtube"@)
            ==> server_platform(url_lower, extractor) == "youtube"@,
        !contains_seq(url_lower, "bilibili"@) && !contains_seq(url_lower, "youtube"@)
            && (contains_seq(url_lower, "douyin"@) || contains_seq(url_lower, "tiktok"@))
            ==> server_platform(url_lower, extractor) == "douyin"@,
        !contains_seq(url_lower, "bilibili"@) && !contains_seq(url_lower, "youtube"@)
            && !contains_seq(url_lower, "douyin"@) && !contains_seq(url_lower, "tiktok"@)
            ==> server_platform(url_lower, extractor) == extractor,
{
}

/// The task that the server creates for `url` with `extractor`, under `id`
/// at time `at`: pending, untitled, no progress, platform by the URL.
pub open spec fn new_info(id: Seq<char>, url: Seq<char>, extractor: Seq<char>, at: Timestamp) -> TaskInfoView {
    TaskInfoView {
        id,
        url,
        title: Seq::empty(),
        platform: server_platform(lowercase(url), extractor),
        status: "pending"@,
        progress_bits: 0,
        speed: None,
        error: None,
        created_at: at,
        output_path: None,
    }
}

/// The platform recorded for a URL, given the URL in lower case.
pub fn platform_for(url_lower: &str, extractor: &str) -> (r: String)
    ensures
        r@ == server_platform(url_lower@, extractor@),
{
    if contains_str(url_lower, "bilibili") {
        String::from_str("bilibili")
    } else if contains_str(url_lower, "youtube") {
        String::from_str("youtube")
    } else if contains_str(url_lower, "douyin") || contains_str(url_lower, "tiktok") {
        String::from_str("douyin")
    } else {
        String::from_str(extractor)
    }
}

/// The view of the server's state.
pub struct ServerStateView {
    pub tasks: Seq<TaskInfoView>,
    pub extensions: Seq<ExtensionInfoView>,
}

/// The task table of the server and the extensions it lists.
pub struct ServerState {
    tasks: Vec<TaskInfo>,
    extensions: Vec<ExtensionInfo>,
}

impl View for ServerState {
    type V = ServerStateView;

    closed spec fn view(&self) -> ServerStateView {
        ServerStateView { tasks: task_info_views(self.tasks@), extensions: extension_info_views(self.extensions@) }
    }
}

/// An extension entry of the server's list: version "1.0.0", enabled and
/// able to take intents.
pub open spec fn ext_info(id: Seq<char>, name: Seq<char>, description: Seq<char>, platforms: Seq<Seq<char>>) -> ExtensionInfoView {
    ExtensionInfoView {
        id,
        name,
        version: "1.0.0"@,
        description,
        platforms,
        enabled: true,
        ai_capable: true,
    }
}

/// The extensions the server lists.
pub open spec fn default_extension_table() -> Seq<ExtensionInfoView> {
    seq![
        ext_info("universal"@, "通用下载器"@, "支持50+平台"@, seq!["video"@]),
        ext_info("bilibili"@, "B站下载器"@, "视频/番剧/直播"@, seq!["video"@, "live"@]),
        ext_info("youtube"@, "YouTube下载器"@, "支持4K/8K"@, seq!["video"@]),
        ext_info("douyin"@, "抖音/TikTok"@, "无水印下载"@, seq!["video"@]),
        ext_info("twitter"@, "Twitter/X"@, "视频/图片"@, seq!["video"@]),
        ext_info("instagram"@, "Instagram"@, "图片/视频/Reels"@, seq!["image"@, "video"@]),
        ext_info("xiaohongshu"@, "小红书"@, "笔记/视频"@, seq!["video"@, "image"@]),
        ext_info("live"@, "直播录制"@, "多平台直播"@, seq!["live"@]),
        ext_info("compress"@, "音视频压缩"@, "FFmpeg压缩"@, seq!["tool"@]),
    ]
}

fn one_platform(a: &str) -> (r: Vec<String>)
    ensures
        views(r@) == seq![a@],
{
    let mut r: Vec<String> = Vec::new();
    r.push(String::from_str(a));
    assert(views(r@) =~= seq![a@]);
    r
}

fn two_platforms(a: &str, b: &str) -> (r: Vec<String>)
    ensures
        views(r@) == seq![a@, b@],
{
    let mut r: Vec<String> = Vec::new();
    r.push(String::from_str(a));
    r.push(String::from_str(b));
    assert(views(r@) =~= seq![a@, b@]);
    r
}

fn make_ext(id: &str, name: &str, description: &str, platforms: Vec<String>) -> (r: ExtensionInfo)
    ensures
        r@ == ext_info(id@, name@, description@, views(platforms@)),
{
    ExtensionInfo {
        id: String::from_str(id),
        name: String::from_str(name),
        version: String::from_str("1.0.0"),
        description: String::from_str(description),
        platforms,
        enabled: true,
        ai_capable: true,
    }
}

/// The extensions the server lists.
pub fn get_default_extensions() -> (r: Vec<ExtensionInfo>)
    ensures
        extension_info_views(r@) == default_extension_table(),
{
    let mut r: Vec<ExtensionInfo> = Vec::new();
    r.push(make_ext("universal", "通用下载器", "支持50+平台", one_platform("video")));
    r.push(make_ext("bilibili", "B站下载器", "视频/番剧/直播", two_platforms("video", "live")));
    r.push(make_ext("youtube", "YouTube下载器", "支持4K/8K", one_platform("video")));
    r.push(make_ext("douyin", "抖音/TikTok", "无水印下载", one_platform("video")));
    r.push(make_ext("twitter", "Twitter/X", "视频/图片", one_platform("video")));
    r.push(make_ext("instagram", "Instagram", "图片/视频/Reels", two_platforms("image", "video")));
    r.push(make_ext("xiaohongshu", "小红书", "笔记/视频", two_platforms("video", "image")));
    r.push(make_ext("live", "直播录制", "多平台直播", one_platform("live")));
    r.push(make_ext("compress", "音视频压缩", "FFmpeg压缩", one_platform("tool")));
    assert(extension_info_views(r@) =~= default_extension_table());
    r
}

impl ServerState {
    #[verifier::type_invariant]
    spec fn wf(self) -> bool {
        info_ids_distinct(task_info_views(self.tasks@))
    }

    /// A server with no tasks, listing the default extensions.
    pub fn new() -> (r: Self)
        ensures
            r@.tasks.len() == 0,
            r@.extensions == default_extension_table(),
    {
        let r = ServerState { tasks: Vec::new(), extensions: get_default_extensions() };
        assert(task_info_views(r.tasks@) =~= Seq::<TaskInfoView>::empty());
        r
    }

    /// The extensions the server lists.
    pub fn extensions(&self) -> (r: &Vec<ExtensionInfo>)
        ensures
            extension_info_views(r@) == self@.extensions,
    {
        &self.extensions
    }

    fn find(&self, id: &str) -> (r: Option<usize>)
        ensures
            match r {
                Some(i) => has_info_at(self@.tasks, id@, i as int),
                None => !has_info(self@.tasks, id@),
            },
    {
        let mut i: usize = 0;
        while i < self.tasks.len()
            invariant
                i <= self.tasks@.len(),
                self@.tasks == task_info_views(self.tasks@),
                forall|k: int| 0 <= k < i ==> !has_info_at(self@.tasks, id@, k),
            decreases self.tasks@.len() - i,
        {
            if str_eq(self.tasks[i].id.as_str(), id) {
                return Some(i);
            }
            i = i + 1;
        }
        None
    }

    /// Puts `t` in, replacing a task with the same id.
    fn put(&mut self, t: TaskInfo)
        ensures
            final(self)@ == (ServerStateView { tasks: after_put(old(self)@.tasks, t@), ..old(self)@ }),
    {
        proof {
            use_type_invariant(&*self);
        }
        let ghost old_ts = self@.tasks;
        let ghost tv = t@;
        let found = self.find(t.id.as_str());
        let mut tasks: Vec<TaskInfo> = Vec::new();
        std::mem::swap(&mut tasks, &mut self.tasks);
        match found {
            Some(i) => {
                proof {
                    let c = choose|k: int| has_info_at(old_ts, tv.id, k);
                    assert(c == i as int);
                }
                tasks.set(i, t);
                let ghost nts = old_ts.update(i as int, tv);
                assert(task_info_views(tasks@) =~= nts);
                assert forall|a: int, b: int| 0 <= a < nts.len() && 0 <= b < nts.len() && a != b implies #[trigger] nts[a].id != #[trigger] nts[b].id by {
                    assert(nts[a].id == old_ts[a].id && nts[b].id == old_ts[b].id);
                }
            },
            None => {
                tasks.push(t);
                let ghost nts = old_ts.push(tv);
                assert(task_info_views(tasks@) =~= nts);
                assert forall|a: int, b: int| 0 <= a < nts.len() && 0 <= b < nts.len() && a != b implies #[trigger] nts[a].id != #[trigger] nts[b].id by {
                    if a < old_ts.len() && b < old_ts.len() {
                        assert(nts[a] == old_ts[a] && nts[b] == old_ts[b]);
                    } else if a < old_ts.len() {
                        assert(nts[a] == old_ts[a]);
                        assert(!has_info_at(old_ts, tv.id, a));
                    } else {
                        assert(nts[b] == old_ts[b]);
                        assert(!has_info_at(old_ts, tv.id, b));
                    }
                }
            },
        }
        self.tasks = tasks;
    }

    /// Creates a pending task for `url` under a fresh random id, its platform
    /// taken from the URL when it names a known site and from `extractor`
    /// otherwise; puts it in (replacing a task with the same id) and returns
    /// its id.
    pub fn add_task(&mut self, url: String, extractor: String) -> (r: String)
        ensures
            exists|at: Timestamp| final(self)@.tasks == after_put(old(self)@.tasks, #[trigger] new_info(r@, url@, extractor@, at)),
            final(self)@.extensions == old(self)@.extensions,
            has_info(final(self)@.tasks, r@),
            forall|i: int| has_info_at(final(self)@.tasks, r@, i)
                ==> final(self)@.tasks[i] == new_info(r@, url@, extractor@, final(self)@.tasks[i].created_at),
            is_ascii_seq(url@) ==> forall|i: int| has_info_at(final(self)@.tasks, r@, i)
                ==> final(self)@.tasks[i].platform == server_platform(ascii_lower(url@), extractor@),
    {
        proof {
            use_type_invariant(&*self);
        }
        let ghost old_ts = self@.tasks;
        let task_id = fresh_uuid();
        let lower = to_lowercase(url.as_str());
        let platform = platform_for(lower.as_str(), extractor.as_str());
        let created_at = now();
        let task = TaskInfo {
            id: task_id.clone(),
            url,
            title: String::new(),
            platform,
            status: String::from_str("pending"),
            progress_bits: 0,
            speed: None,
            error: None,
            created_at,
            output_path: None,
        };
        assert(task@ == new_info(task_id@, task@.url, extractor@, created_at));
        let ghost tv = task@;
        self.put(task);
        proof {
            law_put_then_find(old_ts, tv, tv.id);
        }
        task_id
    }

    /// The task with id `task_id`, if any.
    pub fn get_task(&self, task_id: &str) -> (r: Option<TaskInfo>)
        ensures
            match r {
                Some(t) => exists|i: int| has_info_at(self@.tasks, task_id@, i) && t@ == self@.tasks[i],
                None => !has_info(self@.tasks, task_id@),
            },
    {
        match self.find(task_id) {
            Some(i) => Some(self.tasks[i].clone()),
            None => None,
        }
    }

    /// All tasks.
    pub fn list_tasks(&self) -> (r: Vec<TaskInfo>)
        ensures
            task_info_views(r@) == self@.tasks,
    {
        let mut r: Vec<TaskInfo> = Vec::new();
        let mut i: usize = 0;
        while i < self.tasks.len()
            invariant
                i <= self.tasks@.len(),
                self@.tasks == task_info_views(self.tasks@),
                task_info_views(r@) == self@.tasks.subrange(0, i as int),
            decreases self.tasks@.len() - i,
        {
            let ghost before = r@;
            r.push(self.tasks[i].clone());
            assert(task_info_views(r@) =~= task_info_views(before).push(self@.tasks[i as int]));
            assert(self@.tasks.subrange(0, i + 1) =~= self@.tasks.subrange(0, i as int).push(self@.tasks[i as int]));
            i = i + 1;
        }
        assert(self@.tasks.subrange(0, i as int) =~= self@.tasks);
        r
    }

    /// Removes the task with id `task_id`; whether there was one.
    pub fn remove_task(&mut self, task_id: &str) -> (r: bool)
        ensures
            r == has_info(old(self)@.tasks, task_id@),
            r ==> exists|i: int| has_info_at(old(self)@.tasks, task_id@, i) && final(self)@ == (ServerStateView { tasks: old(self)@.tasks.remove(i), ..old(self)@ }),
            !r ==> final(self)@ == old(self)@,
            !has_info(final(self)@.tasks, task_id@),
    {
        proof {
            use_type_invariant(&*self);
        }
        let ghost old_ts = self@.tasks;
        match self.find(task_id) {
            Some(i) => {
                proof {
                    law_remove_then_absent(old_ts, task_id@, i as int, task_id@);
                }
                let mut tasks: Vec<TaskInfo> = Vec::new();
                std::mem::swap(&mut tasks, &mut self.tasks);
                tasks.remove(i);
                let ghost nts = old_ts.remove(i as int);
                assert(task_info_views(tasks@) =~= nts);
                assert forall|a: int, b: int| 0 <= a < nts.len() && 0 <= b < nts.len() && a != b implies #[trigger] nts[a].id != #[trigger] nts[b].id by {
                    let a2 = if a < i { a } else { a + 1 };
                    let b2 = if b < i { b } else { b + 1 };
                    assert(nts[a] == old_ts[a2] && nts[b] == old_ts[b2]);
                }
                self.tasks = tasks;
                true
            },
            None => false,
        }
    }
}

/// Putting a task in keeps ids unique; looking its id up afterwards finds that
/// task and nothing else, and every other id finds what it found before.
pub proof fn law_put_then_find(ts: Seq<TaskInfoView>, t: TaskInfoView, id: Seq<char>)
    requires
        info_ids_distinct(ts),
    ensures
        info_ids_distinct(after_put(ts, t)),
        exists|i: int| has_info_at(after_put(ts, t), t.id, i),
        forall|i: int| has_info_at(after_put(ts, t), t.id, i) ==> after_put(ts, t)[i] == t,
        id != t.id ==> forall|i: int| #[trigger] has_info_at(after_put(ts, t), id, i)
            ==> exists|j: int| has_info_at(ts, id, j) && ts[j] == after_put(ts, t)[i],
        id != t.id ==> forall|j: int| #[trigger] has_info_at(ts, id, j)
            ==> exists|i: int| has_info_at(after_put(ts, t), id, i) && after_put(ts, t)[i] == ts[j],
{
    let a = after_put(ts, t);
    if has_info(ts, t.id) {
        let c = choose|i: int| has_info_at(ts, t.id, i);
        assert(a == ts.update(c, t));
        assert(has_info_at(a, t.id, c));
        assert forall|i: int| has_info_at(a, t.id, i) implies a[i] == t by {
            if i != c {
                assert(a[i] == ts[i]);
                assert(ts[i].id == ts[c].id);
            }
        }
        assert forall|x: int, y: int| 0 <= x < a.len() && 0 <= y < a.len() && x != y implies #[trigger] a[x].id != #[trigger] a[y].id by {
            assert(a[x].id == ts[x].id && a[y].id == ts[y].id);
        }
        if id != t.id {
            assert forall|i: int| #[trigger] has_info_at(a, id, i) implies exists|j: int| has_info_at(ts, id, j) && ts[j] == a[i] by {
                assert(i != c);
                assert(has_info_at(ts, id, i));
            }
            assert forall|j: int| #[trigger] has_info_at(ts, id, j) implies exists|i: int| has_info_at(a, id, i) && a[i] == ts[j] by {
                assert(j != c);
                assert(has_info_at(a, id, j));
            }
        }
    } else {
        assert(a == ts.push(t));
        assert(has_info_at(a, t.id, ts.len() as int));
        assert forall|i: int| has_info_at(a, t.id, i) implies a[i] == t by {
            if i < ts.len() {
                assert(has_info_at(ts, t.id, i));
            }
        }
        assert forall|x: int, y: int| 0 <= x < a.len() && 0 <= y < a.len() && x != y implies #[trigger] a[x].id != #[trigger] a[y].id by {
            if x < ts.len() && y < ts.len() {
                assert(a[x] == ts[x] && a[y] == ts[y]);
            } else if x < ts.len() {
                assert(a[x] == ts[x]);
                assert(!has_info_at(ts, t.id, x));
            } else {
                assert(a[y] == ts[y]);
                assert(!has_info_at(ts, t.id, y));
            }
        }
        if id != t.id {
            assert forall|i: int| #[trigger] has_info_at(a, id, i) implies exists|j: int| has_info_at(ts, id, j) && ts[j] == a[i] by {
                assert(has_info_at(ts, id, i));
            }
            assert forall|j: int| #[trigger] has_info_at(ts, id, j) implies exists|i: int| has_info_at(a, id, i) && a[i] == ts[j] by {
                assert(has_info_at(a, id, j));
            }
        }
    }
}

/// Removing the task with an id leaves no task with that id, keeps ids
/// unique, and leaves every other task in place.
pub proof fn law_remove_then_absent(ts: Seq<TaskInfoView>, id: Seq<char>, i: int, other: Seq<char>)
    requires
        info_ids_distinct(ts),
        has_info_at(ts, id, i),
    ensures
        info_ids_distinct(ts.remove(i)),
        forall|j: int| !has_info_at(ts.remove(i), id, j),
        other != id ==> forall|j: int| #[trigger] has_info_at(ts, other, j)
            ==> exists|k: int| has_info_at(ts.remove(i), other, k) && ts.remove(i)[k] == ts[j],
{
    let r = ts.remove(i);
    assert forall|j: int| !has_info_at(r, id, j) by {
        if 0 <= j < r.len() {
            let j2 = if j < i { j } else { j + 1 };
            assert(r[j] == ts[j2]);
        }
    }
    assert forall|x: int, y: int| 0 <= x < r.len() && 0 <= y < r.len() && x != y implies #[trigger] r[x].id != #[trigger] r[y].id by {
        let x2 = if x < i { x } else { x + 1 };
        let y2 = if y < i { y } else { y + 1 };
        assert(r[x] == ts[x2] && r[y] == ts[y2]);
    }
    if other != id {
        assert forall|j: int| #[trigger] has_info_at(ts, other, j) implies exists|k: int| has_info_at(r, other, k) && r[k] == ts[j] by {
            assert(j != i);
            let k = if j < i { j } else { j - 1 };
            assert(r[k] == ts[j]);
            assert(has_info_at(r, other, k));
        }
    }
}

/// The reply of the health route.
#[derive(Debug)]
pub struct HealthInfo {
    pub success: bool,
    pub service: String,
    pub version: String,
}

/// The health route: the service answers with its name and version.
pub fn health_check() -> (r: HealthInfo)
    ensures
        r.success,
        r.service@ == "OpenFetch"@,
        r.version@ == "0.8.0"@,
{
    HealthInfo { success: true, service: String::from_str("OpenFetch"), version: String::from_str("0.8.0") }
}

/// The reply of the status route.
#[derive(Debug)]
pub struct StatusInfo {
    pub success: bool,
    pub status: String,
    pub tasks_total: usize,
    pub tasks_active: usize,
    pub server: String,
}

/// The number of tasks whose status is "downloading".
pub open spec fn count_downloading(ts: Seq<TaskInfoView>) -> nat
    decreases ts.len(),
{
    if ts.len() == 0 {
        0
    } else {
        count_downloading(ts.drop_last()) + if ts.last().status == "downloading"@ { 1nat } else { 0nat }
    }
}

proof fn lemma_count_downloading_bound(ts: Seq<TaskInfoView>)
    ensures
        count_downloading(ts) <= ts.len(),
    decreases ts.len(),
{
    if ts.len() > 0 {
        lemma_count_downloading_bound(ts.drop_last());
    }
}

/// The status route: the server is running, with its task count and the
/// number of tasks downloading.
pub fn status_check(state: &ServerState) -> (r: StatusInfo)
    ensures
        r.success,
        r.status@ == "running"@,
        r.tasks_total == state@.tasks.len(),
        r.tasks_active == count_downloading(state@.tasks),
        r.server@ == "OpenFetch HTTP API v0.8.0"@,
{
    let tasks = state.list_tasks();
    let ghost ts = state@.tasks;
    let mut active: usize = 0;
    let mut i: usize = 0;
    while i < tasks.len()
        invariant
            task_info_views(tasks@) == ts,
            i <= tasks@.len(),
            active == count_downloading(ts.subrange(0, i as int)),
        decreases tasks@.len() - i,
    {
        proof {
            assert(ts.subrange(0, i + 1).drop_last() =~= ts.subrange(0, i as int));
            lemma_count_downloading_bound(ts.subrange(0, i as int));
        }
        assert(tasks[i as int]@ == ts[i as int]);
        if str_eq(tasks[i].status.as_str(), "downloading") {
            active = active + 1;
        }
        i = i + 1;
    }
    assert(ts.subrange(0, i as int) =~= ts);
    StatusInfo {
        success: true,
        status: String::from_str("running"),
        tasks_total: tasks.len(),
        tasks_active: active,
        server: String::from_str("OpenFetch HTTP API v0.8.0"),
    }
}

/// The extractor asked for, "auto" when none is.
pub open spec fn extractor_or_auto(e: Option<Seq<char>>) -> Seq<char> {
    match e {
        Some(x) => x,
        None => "auto"@,
    }
}

/// The reply for a created task.
pub open spec fn created_response(id: Seq<char>) -> DownloadResponseView {
    DownloadResponseView { success: true, task_id: Some(id), message: Some("任务已创建"@), error: None }
}

/// A failed reply with `error`.
pub open spec fn error_response(error: Seq<char>) -> DownloadResponseView {
    DownloadResponseView { success: false, task_id: None, message: None, error: Some(error) }
}

fn extractor_of(e: &Option<String>) -> (r: String)
    ensures
        r@ == extractor_or_auto(opt_view(*e)),
{
    match e {
        Some(x) => x.clone(),
        None => String::from_str("auto"),
    }
}

fn created(task_id: String) -> (r: DownloadResponse)
    ensures
        r@ == created_response(task_id@),
{
    DownloadResponse { success: true, task_id: Some(task_id), message: Some(String::from_str("任务已创建")), error: None }
}

/// The download route: an empty URL is refused with "URL不能为空" and
/// nothing changes; otherwise a task is added for the URL with the extractor
/// asked for ("auto" when none is) and its id returned.
pub fn create_download(state: &mut ServerState, req: DownloadRequest) -> (r: DownloadResponse)
    ensures
        req.url@.len() == 0 ==> r@ == error_response("URL不能为空"@) && final(state)@ == old(state)@,
        req.url@.len() > 0 ==> {
            &&& r@.task_id is Some
            &&& r@ == created_response(r@.task_id->0)
            &&& exists|at: Timestamp| final(state)@.tasks == after_put(
                old(state)@.tasks,
                #[trigger] new_info(r@.task_id->0, req.url@, extractor_or_auto(opt_view(req.extractor)), at),
            )
            &&& final(state)@.extensions == old(state)@.extensions
        },
{
    if req.url.unicode_len() == 0 {
        return DownloadResponse {
            success: false,
            task_id: None,
            message: None,
            error: Some(String::from_str("URL不能为空")),
        };
    }
    let extractor = extractor_of(&req.extractor);
    let task_id = state.add_task(req.url, extractor);
    created(task_id)
}

/// Whether the batch route pauses before its request at `index`: from the
/// concurrency limit on (3 when none is given).
pub fn pause_before(index: usize, concurrent: Option<usize>) -> (r: bool)
    ensures
        r == (index >= match concurrent {
            Some(c) => c,
            None => 3,
        }),
{
    let limit = match concurrent {
        Some(c) => c,
        None => 3,
    };
    index >= limit
}

/// The batch route: a task is added for each request in turn, with the
/// extractor asked for ("auto" when none is), and each gets the reply of a
/// created task.
pub fn batch_download(state: &mut ServerState, req: &BatchRequest) -> (r: Vec<DownloadResponse>)
    ensures
        r@.len() == req.urls@.len(),
        exists|items: Seq<TaskInfoView>| {
            &&& items.len() == req.urls@.len()
            &&& forall|i: int| 0 <= i < items.len() ==> {
                &&& (#[trigger] r@[i])@ == created_response(items[i].id)
                &&& items[i] == new_info(items[i].id, req.urls@[i]@.url, extractor_or_auto(req.urls@[i]@.extractor), items[i].created_at)
            }
            &&& final(state)@.tasks == after_puts(old(state)@.tasks, items)
        },
        final(state)@.extensions == old(state)@.extensions,
{
    let ghost start = state@.tasks;
    let ghost mut items: Seq<TaskInfoView> = Seq::empty();
    let mut responses: Vec<DownloadResponse> = Vec::new();
    let mut i: usize = 0;
    while i < req.urls.len()
        invariant
            i <= req.urls@.len(),
            responses@.len() == i,
            items.len() == i,
            forall|k: int| 0 <= k < i ==> {
                &&& (#[trigger] responses@[k])@ == created_response(items[k].id)
                &&& items[k] == new_info(items[k].id, req.urls@[k]@.url, extractor_or_auto(req.urls@[k]@.extractor), items[k].created_at)
            },
            state@.tasks == after_puts(start, items),
            state@.extensions == old(state)@.extensions,
        decreases req.urls@.len() - i,
    {
        let d = &req.urls[i];
        let ghost prev = state@.tasks;
        let (resp, Ghost(item)) = batch_entry(state, d);
        proof {
            let old_items = items;
            items = items.push(item);
            assert(items.drop_last() =~= old_items);
        }
        responses.push(resp);
        i = i + 1;
    }
    responses
}

/// One entry of a batch: adds a task for the entry's URL with its
/// extractor ("auto" when none is named) and answers that it was created.
pub fn batch_item(state: &mut ServerState, d: &DownloadRequest) -> (r: DownloadResponse)
    ensures
        exists|item: TaskInfoView| {
            &&& r@ == created_response(item.id)
            &&& item == new_info(item.id, d@.url, extractor_or_auto(d@.extractor), item.created_at)
            &&& final(state)@.tasks == after_put(old(state)@.tasks, item)
        },
        final(state)@.extensions == old(state)@.extensions,
{
    let (r, _item) = batch_entry(state, d);
    r
}

/// `batch_item`, with the task it added.
fn batch_entry(state: &mut ServerState, d: &DownloadRequest) -> (r: (DownloadResponse, Ghost<TaskInfoView>))
    ensures
        r.0@ == created_response(r.1@.id),
        r.1@ == new_info(r.1@.id, d@.url, extractor_or_auto(d@.extractor), r.1@.created_at),
        final(state)@.tasks == after_put(old(state)@.tasks, r.1@),
        final(state)@.extensions == old(state)@.extensions,
{
    let extractor = extractor_of(&d.extractor);
    let ghost prev = state@.tasks;
    let ghost url = d.url@;
    let ghost ext = extractor@;
    let task_id = state.add_task(d.url.clone(), extractor);
    let ghost at = choose|at: Timestamp| state@.tasks == after_put(prev, #[trigger] new_info(task_id@, url, ext, at));
    let ghost item = new_info(task_id@, url, ext, at);
    (created(task_id), Ghost(item))
}

/// The reply of the delete route.
#[derive(Debug)]
pub struct DeleteReply {
    pub success: bool,
    pub message: String,
}

/// The delete route: removes the task; "任务已删除" when there was one,
/// "任务不存在" when not.
pub fn delete_task(state: &mut ServerState, task_id: &str) -> (r: DeleteReply)
    ensures
        r.success == has_info(old(state)@.tasks, task_id@),
        r.message@ == (if r.success { "任务已删除"@ } else { "任务不存在"@ }),
        r.success ==> exists|i: int| has_info_at(old(state)@.tasks, task_id@, i) && final(state)@ == (ServerStateView { tasks: old(state)@.tasks.remove(i), ..old(state)@ }),
        !r.success ==> final(state)@ == old(state)@,
{
    let removed = state.remove_task(task_id);
    let message = if removed { String::from_str("任务已删除") } else { String::from_str("任务不存在") };
    DeleteReply { success: removed, message }
}

/// The stand-in the task route answers for an unknown id.
pub open spec fn not_found_info(id: Seq<char>, at: Timestamp) -> TaskInfoView {
    TaskInfoView {
        id,
        url: Seq::empty(),
        title: Seq::empty(),
        platform: Seq::empty(),
        status: "not_found"@,
        progress_bits: 0,
        speed: None,
        error: Some("任务不存在"@),
        created_at: at,
        output_path: None,
    }
}

/// The task route: the task with id `task_id`, or for an unknown id a
/// stand-in with status "not_found" and the error "任务不存在".
pub fn get_task(state: &ServerState, task_id: String) -> (r: TaskInfo)
    ensures
        has_info(state@.tasks, task_id@) ==> exists|i: int| has_info_at(state@.tasks, task_id@, i) && r@ == state@.tasks[i],
        !has_info(state@.tasks, task_id@) ==> r@ == not_found_info(task_id@, r@.created_at),
{
    match state.get_task(task_id.as_str()) {
        Some(t) => t,
        None => TaskInfo {
            id: task_id,
            url: String::new(),
            title: String::new(),
            platform: String::new(),
            status: String::from_str("not_found"),
            progress_bits: 0,
            speed: None,
            error: Some(String::from_str("任务不存在")),
            created_at: now(),
            output_path: None,
        },
    }
}

/// The reply of the compression route.
#[derive(Debug)]
pub struct CompressReply {
    pub success: bool,
    pub message: Option<String>,
    pub error: Option<String>,
}

/// The compression route: an empty input is refused with "输入文件不能为空";
/// otherwise the job is accepted with "压缩任务已创建".
pub fn compress(req: &CompressRequest) -> (r: CompressReply)
    ensures
        r.success == (req.input@.len() > 0),
        r.success ==> opt_view(r.message) == Some("压缩任务已创建"@) && r.error is None,
        !r.success ==> opt_view(r.error) == Some("输入文件不能为空"@) && r.message is None,
{
    if req.input.unicode_len() == 0 {
        CompressReply { success: false, message: None, error: Some(String::from_str("输入文件不能为空")) }
    } else {
        CompressReply { success: true, message: Some(String::from_str("压缩任务已创建")), error: None }
    }
}

} // verus!
