use open_fetch::cloud::api::{
    api_batch_create, api_cancel_task, api_create_task, api_delete_task, api_get_task, api_health,
    api_list_tasks, api_platforms, api_stats, compute_stats, detect_platform, BatchCreateRequest,
    CreateTaskRequest, ListParams,
};
use open_fetch::cloud::auth::{extract_api_key, is_authorized, validate_api_key};
use open_fetch::cloud::state::{is_earlier, CloudState, TaskEvent, TaskStatus, Timestamp};
use open_fetch::cloud::websocket::{client_reply, ClientReply};

fn store() -> CloudState {
    CloudState::new("downloads".to_string(), 8080)
}

#[test]
fn new_store_is_empty() {
    let s = store();
    assert_eq!(s.download_dir(), "downloads");
    assert_eq!(s.port(), 8080);
    assert!(s.list_tasks().is_empty());
}

#[test]
fn created_task_is_pending_and_found_again() {
    let mut s = store();
    let t = s.create_task("https://b23.tv/x".into(), "bilibili".into(), "u1".into());
    assert_eq!(t.status, TaskStatus::Pending);
    assert_eq!(t.progress_bits, 0);
    assert_eq!(t.speed, "0 MB/s");
    assert_eq!(t.size, "0 MB");
    assert!(t.output_path.is_none() && t.error.is_none());
    let found = s.get_task(&t.id).unwrap();
    assert_eq!(found.url, "https://b23.tv/x");
    assert_eq!(found.user_id, "u1");
    assert!(s.get_task("missing").is_none());
}

#[test]
fn progress_below_hundred_downloads_and_at_hundred_completes() {
    let mut s = store();
    let t = s.create_task("u".into(), "p".into(), "me".into());
    let half = s.update_task(&t.id, 50.0f32.to_bits(), "1 MB/s".into(), "10 MB".into()).unwrap();
    assert_eq!(half.status, TaskStatus::Downloading);
    assert_eq!(half.speed, "1 MB/s");
    assert_eq!(half.size, "10 MB");
    let full = s.update_task(&t.id, 100.0f32.to_bits(), "1 MB/s".into(), "10 MB".into()).unwrap();
    assert_eq!(full.status, TaskStatus::Completed);
    assert!(s.update_task("nope", 0, "".into(), "".into()).is_none());
}

#[test]
fn completing_sets_full_progress_and_output() {
    let mut s = store();
    let t = s.create_task("u".into(), "p".into(), "me".into());
    let done = s.complete_task(&t.id, "/tmp/out.mp4".into()).unwrap();
    assert_eq!(done.status, TaskStatus::Completed);
    assert_eq!(f32::from_bits(done.progress_bits), 100.0);
    assert_eq!(done.output_path.as_deref(), Some("/tmp/out.mp4"));
    assert!(s.complete_task("nope", "x".into()).is_none());
}

#[test]
fn failing_records_the_error() {
    let mut s = store();
    let t = s.create_task("u".into(), "p".into(), "me".into());
    let f = s.fail_task(&t.id, "boom".into()).unwrap();
    assert_eq!(f.status, TaskStatus::Failed);
    assert_eq!(f.error.as_deref(), Some("boom"));
}

#[test]
fn removing_twice_finds_nothing_the_second_time() {
    let mut s = store();
    let t = s.create_task("u".into(), "p".into(), "me".into());
    assert!(s.remove_task(&t.id));
    assert!(!s.remove_task(&t.id));
    assert!(s.get_task(&t.id).is_none());
}

#[test]
fn events_are_published_in_order() {
    let mut s = store();
    let t = s.create_task("u".into(), "p".into(), "me".into());
    s.complete_task(&t.id, "o".into());
    s.fail_task(&t.id, "e".into());
    s.remove_task(&t.id);
    let events = s.take_events();
    assert_eq!(events.len(), 4);
    assert!(matches!(events[0], TaskEvent::TaskCreated { .. }));
    assert!(matches!(events[1], TaskEvent::TaskCompleted { .. }));
    match &events[2] {
        TaskEvent::TaskFailed { task_id, error } => {
            assert_eq!(task_id, &t.id);
            assert_eq!(error, "e");
        }
        _ => panic!("expected a failure event"),
    }
    assert!(matches!(events[3], TaskEvent::TaskRemoved { .. }));
    assert!(s.take_events().is_empty());
}

#[test]
fn listing_is_latest_first_and_by_user() {
    let mut s = store();
    let a = s.create_task("a".into(), "p".into(), "alice".into());
    let b = s.create_task("b".into(), "p".into(), "bob".into());
    let c = s.create_task("c".into(), "p".into(), "alice".into());
    let all = s.list_tasks();
    assert_eq!(all.len(), 3);
    for w in all.windows(2) {
        assert!(!is_earlier(w[0].created_at, w[1].created_at));
    }
    let mine = s.list_tasks_by_user("alice");
    assert_eq!(mine.len(), 2);
    assert!(mine.iter().all(|t| t.user_id == "alice"));
    let ids: Vec<&str> = mine.iter().map(|t| t.id.as_str()).collect();
    assert!(ids.contains(&a.id.as_str()) && ids.contains(&c.id.as_str()));
    assert!(!ids.contains(&b.id.as_str()));
}

#[test]
fn earlier_compares_seconds_then_nanos() {
    let a = Timestamp { secs: 1, nanos: 5 };
    let b = Timestamp { secs: 1, nanos: 6 };
    let c = Timestamp { secs: 2, nanos: 0 };
    assert!(is_earlier(a, b));
    assert!(is_earlier(b, c));
    assert!(!is_earlier(c, a));
    assert!(!is_earlier(a, a));
}

#[test]
fn platforms_are_detected_by_host() {
    assert_eq!(detect_platform("https://www.bilibili.com/video/BV1"), "bilibili");
    assert_eq!(detect_platform("https://b23.tv/abc"), "bilibili");
    assert_eq!(detect_platform("https://youtu.be/xyz"), "youtube");
    assert_eq!(detect_platform("https://www.douyin.com/video/1"), "douyin");
    assert_eq!(detect_platform("https://weibo.com/tv/1"), "weibo");
    assert_eq!(detect_platform("https://www.ixigua.com/1"), "ixigua");
    assert_eq!(detect_platform("https://example.com/v.mp4"), "general");
}

#[test]
fn api_create_detects_platform_and_keeps_user() {
    let mut s = store();
    let r = api_create_task(
        &mut s,
        CreateTaskRequest { url: "https://youtube.com/watch?v=1".into(), platform: None, user_id: Some("u9".into()) },
    );
    assert!(r.success && r.error.is_none());
    let t = r.data.unwrap();
    assert_eq!(t.platform, "youtube");
    assert_eq!(t.user_id, "u9");
    let r2 = api_create_task(&mut s, CreateTaskRequest { url: "x".into(), platform: Some("mine".into()), user_id: None });
    let t2 = r2.data.unwrap();
    assert_eq!(t2.platform, "mine");
    assert!(!t2.user_id.is_empty());
}

#[test]
fn api_get_delete_and_cancel_report_missing_tasks() {
    let mut s = store();
    let g = api_get_task(&s, "none");
    assert!(!g.success);
    assert_eq!(g.error.as_deref(), Some("任务不存在"));
    let d = api_delete_task(&mut s, "none");
    assert!(!d.success);
    assert_eq!(d.error.as_deref(), Some("任务不存在"));
    let c = api_cancel_task(&mut s, "none");
    assert!(!c.success);
    assert_eq!(c.error.as_deref(), Some("任务不存在"));
}

#[test]
fn api_cancel_fails_the_task_as_cancelled_by_user() {
    let mut s = store();
    let t = s.create_task("u".into(), "p".into(), "me".into());
    let c = api_cancel_task(&mut s, &t.id);
    assert!(c.success);
    let ct = c.data.unwrap();
    assert_eq!(ct.status, TaskStatus::Failed);
    assert_eq!(ct.error.as_deref(), Some("用户取消"));
    assert!(api_get_task(&s, &t.id).success);
    assert!(api_delete_task(&mut s, &t.id).success);
}

#[test]
fn api_batch_creates_one_task_per_url_for_one_user() {
    let mut s = store();
    let r = api_batch_create(
        &mut s,
        BatchCreateRequest { urls: vec!["a".into(), "b".into(), "c".into()], platform: None, user_id: None },
    );
    let tasks = r.data.unwrap();
    assert_eq!(tasks.len(), 3);
    assert!(tasks.iter().all(|t| t.platform == "auto" && t.user_id == tasks[0].user_id));
    assert_eq!(tasks[1].url, "b");
    assert_eq!(s.list_tasks().len(), 3);
    assert_eq!(s.take_events().len(), 3);
}

#[test]
fn api_listing_filters_by_user() {
    let mut s = store();
    s.create_task("a".into(), "p".into(), "alice".into());
    s.create_task("b".into(), "p".into(), "bob".into());
    let all = api_list_tasks(&s, &ListParams { user_id: None });
    assert_eq!(all.data.unwrap().len(), 2);
    let bobs = api_list_tasks(&s, &ListParams { user_id: Some("bob".into()) });
    let bobs = bobs.data.unwrap();
    assert_eq!(bobs.len(), 1);
    assert_eq!(bobs[0].url, "b");
    assert!(api_health(&s).success);
}

#[test]
fn statistics_count_each_status() {
    let mut s = store();
    let a = s.create_task("a".into(), "p".into(), "u".into());
    let b = s.create_task("b".into(), "p".into(), "u".into());
    let c = s.create_task("c".into(), "p".into(), "u".into());
    let d = s.create_task("d".into(), "p".into(), "u".into());
    s.update_task(&a.id, 10.0f32.to_bits(), "".into(), "".into());
    s.complete_task(&b.id, "o".into());
    s.fail_task(&c.id, "e".into());
    let _ = d;
    let st = api_stats(&s).data.unwrap();
    assert_eq!(st.total, 4);
    assert_eq!(st.pending, 1);
    assert_eq!(st.downloading, 1);
    assert_eq!(st.completed, 1);
    assert_eq!(st.failed, 1);
    let direct = compute_stats(&s.list_tasks());
    assert_eq!(direct, st);
}

#[test]
fn platform_table_lists_six_platforms() {
    let p = api_platforms().data.unwrap();
    let ids: Vec<&str> = p.iter().map(|x| x.id.as_str()).collect();
    assert_eq!(ids, vec!["bilibili", "youtube", "douyin", "weibo", "ixigua", "general"]);
    assert_eq!(p[0].name, "哔哩哔哩");
}

#[test]
fn bearer_prefixes_are_removed_and_empty_keys_refused() {
    assert_eq!(extract_api_key(Some("Bearer Bearer k")), Some("k".to_string()));
    assert_eq!(extract_api_key(Some("plain")), Some("plain".to_string()));
    assert_eq!(extract_api_key(None), None);
    assert!(validate_api_key("x"));
    assert!(!validate_api_key(""));
    assert!(is_authorized(Some("Bearer abc")));
    assert!(!is_authorized(Some("Bearer ")));
    assert!(!is_authorized(None));
}

#[test]
fn websocket_answers_ping_and_subscribe() {
    assert!(matches!(client_reply("ping", None), ClientReply::Pong));
    match client_reply("subscribe", Some(vec!["tasks".into()])) {
        ClientReply::Subscribed { channels } => assert_eq!(channels, Some(vec!["tasks".to_string()])),
        _ => panic!("expected a subscription"),
    }
    assert!(matches!(client_reply("other", None), ClientReply::Unknown));
}

#[test]
fn an_updated_task_reads_back_as_returned() {
    let mut st = CloudState::new("/d".into(), 8080);
    let t = st.create_task("https://a/1".into(), "bilibili".into(), "u".into());
    let u = st.update_task(&t.id, 50.0f32.to_bits(), "1 MB/s".into(), "9 MB".into()).unwrap();
    assert_eq!(st.get_task(&t.id).unwrap().progress_bits, u.progress_bits);
    let c = st.complete_task(&t.id, "/d/a.mp4".into()).unwrap();
    assert_eq!(st.get_task(&t.id).unwrap().output_path, c.output_path);
    let f = st.fail_task(&t.id, "boom".into()).unwrap();
    assert_eq!(st.get_task(&t.id).unwrap().error.as_deref(), Some("boom"));
    assert_eq!(f.status, TaskStatus::Failed);
}
