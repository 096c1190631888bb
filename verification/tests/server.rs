use open_fetch::server::{
    batch_download, batch_item, compress, create_download, delete_task, get_default_extensions, get_task,
    health_check, pause_before, platform_for, status_check, BatchRequest, CompressRequest,
    DownloadRequest, ServerState,
};

fn request(url: &str, extractor: Option<&str>) -> DownloadRequest {
    DownloadRequest { url: url.into(), extractor: extractor.map(String::from), quality: None, format: None }
}

#[test]
fn default_extensions_are_listed() {
    let e = get_default_extensions();
    let ids: Vec<&str> = e.iter().map(|x| x.id.as_str()).collect();
    assert_eq!(
        ids,
        vec!["universal", "bilibili", "youtube", "douyin", "twitter", "instagram", "xiaohongshu", "live", "compress"]
    );
    assert!(e.iter().all(|x| x.version == "1.0.0" && x.enabled && x.ai_capable));
    assert_eq!(e[1].platforms, vec!["video".to_string(), "live".to_string()]);
    let s = ServerState::new();
    assert_eq!(s.extensions().len(), 9);
    assert!(s.list_tasks().is_empty());
}

#[test]
fn known_sites_win_over_the_extractor() {
    assert_eq!(platform_for("https://www.bilibili.com/video/1", "auto"), "bilibili");
    assert_eq!(platform_for("https://youtube.com/x", "auto"), "youtube");
    assert_eq!(platform_for("https://www.tiktok.com/@a", "auto"), "douyin");
    assert_eq!(platform_for("https://example.com/v", "mine"), "mine");
}

#[test]
fn added_task_is_pending_with_detected_platform() {
    let mut s = ServerState::new();
    let id = s.add_task("https://WWW.BILIBILI.COM/video/1".into(), "auto".into());
    let t = s.get_task(&id).unwrap();
    assert_eq!(t.id, id);
    assert_eq!(t.platform, "bilibili");
    assert_eq!(t.status, "pending");
    assert_eq!(t.progress_bits, 0);
    assert!(t.title.is_empty() && t.speed.is_none() && t.error.is_none() && t.output_path.is_none());
    let other = s.add_task("https://example.com/v".into(), "generic".into());
    assert_eq!(s.get_task(&other).unwrap().platform, "generic");
    assert_eq!(s.list_tasks().len(), 2);
}

#[test]
fn removed_task_is_gone() {
    let mut s = ServerState::new();
    let id = s.add_task("u".into(), "auto".into());
    assert!(s.remove_task(&id));
    assert!(!s.remove_task(&id));
    assert!(s.get_task(&id).is_none());
}

#[test]
fn empty_url_is_refused() {
    let mut s = ServerState::new();
    let r = create_download(&mut s, request("", None));
    assert!(!r.success);
    assert_eq!(r.error.as_deref(), Some("URL不能为空"));
    assert!(r.task_id.is_none() && r.message.is_none());
    assert!(s.list_tasks().is_empty());
}

#[test]
fn download_creates_a_task_with_auto_extractor() {
    let mut s = ServerState::new();
    let r = create_download(&mut s, request("https://example.com/v", None));
    assert!(r.success);
    assert_eq!(r.message.as_deref(), Some("任务已创建"));
    let t = s.get_task(r.task_id.as_deref().unwrap()).unwrap();
    assert_eq!(t.platform, "auto");
}

#[test]
fn batch_answers_each_request() {
    let mut s = ServerState::new();
    let req = BatchRequest {
        urls: vec![request("https://youtube.com/1", None), request("https://x.org/2", Some("custom"))],
        concurrent: None,
    };
    let rs = batch_download(&mut s, &req);
    assert_eq!(rs.len(), 2);
    assert!(rs.iter().all(|r| r.success && r.message.as_deref() == Some("任务已创建")));
    assert_eq!(s.get_task(rs[0].task_id.as_deref().unwrap()).unwrap().platform, "youtube");
    assert_eq!(s.get_task(rs[1].task_id.as_deref().unwrap()).unwrap().platform, "custom");
}

#[test]
fn batch_pauses_from_the_concurrency_limit_on() {
    assert!(!pause_before(2, None));
    assert!(pause_before(3, None));
    assert!(!pause_before(0, Some(1)));
    assert!(pause_before(1, Some(1)));
}

#[test]
fn delete_reports_whether_the_task_existed() {
    let mut s = ServerState::new();
    let id = s.add_task("u".into(), "auto".into());
    let r = delete_task(&mut s, &id);
    assert!(r.success);
    assert_eq!(r.message, "任务已删除");
    let r = delete_task(&mut s, &id);
    assert!(!r.success);
    assert_eq!(r.message, "任务不存在");
}

#[test]
fn unknown_task_gets_a_not_found_stand_in() {
    let s = ServerState::new();
    let t = get_task(&s, "missing".into());
    assert_eq!(t.id, "missing");
    assert_eq!(t.status, "not_found");
    assert_eq!(t.error.as_deref(), Some("任务不存在"));
    assert!(t.url.is_empty());
}

#[test]
fn status_counts_downloading_tasks() {
    let mut s = ServerState::new();
    s.add_task("a".into(), "auto".into());
    let st = status_check(&s);
    assert_eq!(st.tasks_total, 1);
    assert_eq!(st.tasks_active, 0);
    assert_eq!(st.status, "running");
    let h = health_check();
    assert!(h.success);
    assert_eq!(h.service, "OpenFetch");
    assert_eq!(h.version, "0.8.0");
}

#[test]
fn compress_needs_an_input() {
    let empty = CompressRequest { input: "".into(), output: None, crf: None, preset: None, format: None };
    let r = compress(&empty);
    assert!(!r.success);
    assert_eq!(r.error.as_deref(), Some("输入文件不能为空"));
    let ok = CompressRequest { input: "a.mp4".into(), output: None, crf: Some(23), preset: None, format: None };
    let r = compress(&ok);
    assert!(r.success);
    assert_eq!(r.message.as_deref(), Some("压缩任务已创建"));
}

#[test]
fn a_batch_entry_adds_one_task() {
    let mut s = ServerState::new();
    let r = batch_item(&mut s, &request("https://x.org/3", Some("mine")));
    assert!(r.success);
    assert_eq!(r.message.as_deref(), Some("任务已创建"));
    assert_eq!(s.get_task(r.task_id.as_deref().unwrap()).unwrap().platform, "mine");
}
