use open_fetch::cloud::state::Timestamp;
use open_fetch::error::OpenFetchError;
use open_fetch::extension::{DownloadExtension, ExtInstance, ExtensionManifest};
use open_fetch::extensions::{detect_extractor, extractor_for_lower, get_all_extensions, get_extension_script};
use open_fetch::gui::{OpenFetchApp, TrayIcon};
use open_fetch::plugin::hooks::{
    HookContext, HookEvent, HookHandler, HookPriority, HookResult, HookRun, HookStats, HookSystem, LogHook,
    StatsHook,
};
use open_fetch::plugin::runtime::{javascript_output, python_output, PluginRuntime, RuntimeType};
use open_fetch::runtime::python::{downloaded_path, execution_output, path_from_field, PythonRuntime};
use open_fetch::sync::{tasks_query, StoredRow, Task, TaskStatus};
use open_fetch::text::{contains_str, lines, split_whitespace, starts_with_str, trim, trim_start_matches};

fn ctx() -> HookContext {
    HookContext { event: HookEvent::PreDownload, task_id: None, url: None, plugin_id: None, data: Vec::new() }
}

#[derive(Clone)]
struct Stopper {
    reason: Option<&'static str>,
}

impl HookHandler for Stopper {
    fn handle(&self, _event: HookEvent, _ctx: &HookContext) -> Result<HookResult, String> {
        Ok(HookResult {
            proceed: false,
            reason: self.reason.map(String::from),
            modified_data: None,
            error: None,
        })
    }
    fn name(&self) -> &'static str {
        "stopper"
    }
    fn priority(&self) -> HookPriority {
        HookPriority::High
    }
}

#[derive(Clone)]
struct Failing;

impl HookHandler for Failing {
    fn handle(&self, _event: HookEvent, _ctx: &HookContext) -> Result<HookResult, String> {
        Err("bad".to_string())
    }
    fn name(&self) -> &'static str {
        "failing"
    }
}

#[test]
fn a_stopping_handler_blocks_with_its_name() {
    let mut sys = HookSystem::new();
    sys.register(HookEvent::PreDownload, Stopper { reason: None });
    let r = sys.trigger(HookEvent::PreDownload, &ctx());
    assert!(!r.proceed);
    assert_eq!(r.reason.as_deref(), Some("被 stopper 阻止"));
    assert!(sys.get_stats(HookEvent::PreDownload).is_none());
    let mut sys2 = HookSystem::new();
    sys2.register(HookEvent::PreDownload, Stopper { reason: Some("no") });
    assert_eq!(sys2.trigger(HookEvent::PreDownload, &ctx()).reason.as_deref(), Some("no"));
}

#[test]
fn handler_errors_are_counted_and_do_not_stop() {
    let mut sys = HookSystem::new();
    sys.register(HookEvent::TaskCreated, Failing);
    sys.register(HookEvent::TaskCreated, Failing);
    let r = sys.trigger(HookEvent::TaskCreated, &ctx());
    assert!(r.proceed);
    let st = sys.get_stats(HookEvent::TaskCreated).unwrap();
    assert_eq!(st.call_count, 2);
    assert_eq!(st.error_count, 2);
    sys.trigger(HookEvent::TaskCreated, &ctx());
    assert_eq!(sys.get_stats(HookEvent::TaskCreated).unwrap().call_count, 4);
    assert_eq!(sys.registered_events(), vec![HookEvent::TaskCreated]);
    let copy = sys.clone();
    assert_eq!(copy.get_stats(HookEvent::TaskCreated).unwrap().call_count, 4);
}

#[test]
fn async_trigger_records_nothing() {
    let mut sys = HookSystem::new();
    sys.register(HookEvent::PostSync, LogHook::new("log"));
    assert!(sys.trigger_async(HookEvent::PostSync, ctx()).proceed);
    assert!(sys.get_stats(HookEvent::PostSync).is_none());
    assert!(sys.trigger(HookEvent::PostSync, &ctx()).proceed);
    assert_eq!(sys.get_stats(HookEvent::PostSync).unwrap().call_count, 1);
}

#[test]
fn stats_hook_counts_what_it_sees() {
    let h = StatsHook::new();
    assert_eq!(h.count(), 0);
    h.handle(HookEvent::PreSync, &ctx()).unwrap();
    h.handle(HookEvent::PreSync, &ctx()).unwrap();
    assert_eq!(h.count(), 2);
    assert_eq!(h.name(), "stats-hook");
}

#[test]
fn a_run_merges_data_and_stops() {
    let mut run = HookRun::new(HookStats { call_count: 5, error_count: 0, total_duration_ms: 0 });
    run.step(
        HookResult::modify(vec![("k".to_string(), serde_json::Value::Bool(true))]),
        "m",
    );
    assert!(run.proceeds());
    run.step(HookResult::stop("halt".to_string()), "s");
    assert!(!run.proceeds());
    let (res, stats, touched) = run.finish();
    assert!(!res.proceed);
    assert_eq!(res.reason.as_deref(), Some("halt"));
    assert_eq!(res.modified_data.unwrap().len(), 1);
    assert_eq!(stats.call_count, 6);
    assert!(touched);
}

#[test]
fn task_status_names_round_trip() {
    for s in [TaskStatus::Pending, TaskStatus::Downloading, TaskStatus::Completed, TaskStatus::Failed, TaskStatus::Cancelled] {
        assert_eq!(TaskStatus::from_str(s.as_str()), Some(s));
    }
    assert_eq!(TaskStatus::from_str("Pending"), None);
    assert_eq!(TaskStatus::from_stored("weird"), TaskStatus::Pending);
    assert_eq!(tasks_query(None), "SELECT * FROM tasks ORDER BY created_at DESC");
    assert_eq!(
        tasks_query(Some(TaskStatus::Failed)),
        "SELECT * FROM tasks WHERE status = 'failed' ORDER BY created_at DESC"
    );
}

#[test]
fn new_sync_task_and_stored_rows() {
    let t = Task::new("https://a", Some("bilibili".into()), "dev-1".into());
    assert_eq!(t.status, TaskStatus::Pending);
    assert_eq!(t.version, 1);
    assert_eq!(t.created_at, t.updated_at);
    assert_eq!(t.device_id, "dev-1");
    assert_eq!(t.summary_line(), format!("  {} [pending] https://a", t.id));
    let row = StoredRow {
        id: "i".into(),
        url: "u".into(),
        extension_name: None,
        status: "completed".into(),
        file_path: Some("/f".into()),
        metadata: None,
        created_at: "1970-01-01T00:00:10Z".into(),
        updated_at: "not a time".into(),
        device_id: "d".into(),
        version: 7,
    };
    let back = Task::from_row(row);
    assert_eq!(back.status, TaskStatus::Completed);
    assert_eq!(back.created_at, Timestamp { secs: 10, nanos: 0 });
    assert_eq!(back.version, 7);
    assert!(back.updated_at.secs > 10);
}

#[test]
fn runtime_names_in_any_case() {
    assert_eq!(RuntimeType::from_str("PY"), Some(RuntimeType::Python));
    assert_eq!(RuntimeType::from_str("JavaScript"), Some(RuntimeType::JavaScript));
    assert_eq!(RuntimeType::from_str("rust"), Some(RuntimeType::Native));
    assert_eq!(RuntimeType::from_str("WebAssembly"), Some(RuntimeType::Wasm));
    assert_eq!(RuntimeType::from_str("ruby"), None);
    let rt = PluginRuntime::new();
    assert_eq!(rt.status(RuntimeType::JavaScript).path.as_deref(), Some("node"));
    assert_eq!(rt.status(RuntimeType::Wasm).version.as_deref(), Some("wasm32"));
    assert!(rt.status(RuntimeType::Native).path.is_none());
    let all = rt.all_status();
    assert_eq!(all.len(), 4);
    assert_eq!(all[0].0, RuntimeType::Python);
    let run = rt.prepare_javascript(&serde_json::Value::Null).unwrap();
    assert_eq!(run.program, "node");
    assert_eq!(run.params_json, "null");
}

#[test]
fn script_outputs_are_read_as_json() {
    let ok = python_output(true, "  {\"result\": \"ok\"}\n", "").unwrap();
    assert_eq!(ok["result"], serde_json::Value::String("ok".into()));
    assert_eq!(python_output(false, "", "trace").unwrap_err(), "Python脚本执行失败: trace");
    assert_eq!(javascript_output(false, "", "x").unwrap_err(), "JavaScript脚本执行失败: x");
    assert_eq!(python_output(true, "not json", "").unwrap_err(), "解析脚本输出失败");
}

#[test]
fn python_runtime_prepares_registered_scripts() {
    let mut py = PythonRuntime::new(None);
    assert!(!py.is_available());
    let params = serde_json::Value::Bool(true);
    assert_eq!(py.prepare("bili", &params).unwrap_err(), "扩展脚本未注册: bili");
    py.register_script("bili", "ext/bili.py".into());
    assert_eq!(py.prepare("bili", &params).unwrap_err(), "Python 未安装");
    let mut py = PythonRuntime::new(Some("/usr/bin/python3".into()));
    py.register_script("bili", "old.py".into());
    py.register_script("bili", "ext/bili.py".into());
    let x = py.prepare("bili", &params).unwrap();
    assert_eq!(x.python, "/usr/bin/python3");
    assert_eq!(x.script, "ext/bili.py");
    assert_eq!(x.params_json, "true");
    assert_eq!(execution_output(true, "oops", "").unwrap_err(), "解析输出失败: oops");
    assert_eq!(execution_output(false, "", "e").unwrap_err(), "Python脚本执行失败: e");
    let result = execution_output(true, "{\"path\": \"/d/v.mp4\"}", "").unwrap();
    assert_eq!(downloaded_path(&result).unwrap(), "/d/v.mp4");
    assert_eq!(downloaded_path(&serde_json::Value::Null).unwrap_err(), "下载结果中缺少文件路径");
}

#[test]
fn gui_download_button_and_tray() {
    let mut app = OpenFetchApp::default();
    assert_eq!(app.platform, "auto");
    assert_eq!(app.status, "就绪");
    app.on_download_clicked();
    assert_eq!(app.status, "请输入视频链接");
    app.url = "https://b23.tv/x".into();
    app.on_download_clicked();
    assert_eq!(app.status, "正在下载: https://b23.tv/x ...");
    assert_eq!(app.status_line(), "状态: 正在下载: https://b23.tv/x ...");
    assert!(TrayIcon::new().is_none());
    assert_eq!(TrayIcon {}.notification_text("完成", "a.mp4"), "[通知] 完成: a.mp4");
}

#[test]
fn error_messages() {
    assert_eq!(OpenFetchError::DownloadFailed("x".into()).message(), "下载失败: x");
    assert_eq!(OpenFetchError::ParseError("y".into()).message(), "解析失败: y");
    assert_eq!(OpenFetchError::SyncFailed("z".into()).message(), "同步失败: z");
    assert_eq!(OpenFetchError::StorageError("s".into()).message(), "存储失败: s");
    assert_eq!(OpenFetchError::ConfigError("c".into()).message(), "配置错误: c");
    assert_eq!(OpenFetchError::PermissionError("p".into()).message(), "权限错误: p");
}

#[test]
fn builtin_extensions_scripts_and_extractors() {
    let all = get_all_extensions();
    assert_eq!(all.len(), 12);
    assert_eq!(all[0].id, "universal");
    assert_eq!(all[11].id, "compress");
    assert_eq!(get_extension_script("compress"), Some("src/extensions/compress/compressor.py"));
    assert_eq!(get_extension_script("weibo"), Some("src/extensions/weibo/downloader.py"));
    assert_eq!(get_extension_script("nope"), None);
    assert_eq!(detect_extractor("https://WWW.YOUTUBE.COM/watch"), "youtube");
    assert_eq!(detect_extractor("https://x.com/a/status/1"), "twitter");
    assert_eq!(detect_extractor("https://www.huya.com/1"), "live");
    assert_eq!(detect_extractor("https://v.kuaishou.com/1"), "kuishou");
    assert_eq!(detect_extractor("https://example.org"), "universal");
}

#[test]
fn extension_supports_its_platforms() {
    let m = ExtensionManifest {
        name: "bili".into(),
        version: "1".into(),
        description: "".into(),
        ai_manifest: None,
        capabilities: vec![],
        platforms: vec!["bilibili.com".into()],
    };
    let e = ExtInstance::new(m, "p".into());
    assert!(e.supports("https://www.bilibili.com/v"));
    assert!(!e.supports("https://youtube.com"));
}

#[test]
fn text_helpers() {
    assert_eq!(trim("\u{3000} a b \t"), "a b");
    assert_eq!(split_whitespace(" a  b\tc "), vec!["a", "b", "c"]);
    assert_eq!(lines("a\r\nb\n\nc"), vec!["a", "b", "", "c"]);
    assert!(contains_str("hello", "ell"));
    assert!(contains_str("hello", ""));
    assert!(!contains_str("hello", "lo!"));
    assert!(starts_with_str("https://x", "https://"));
    assert_eq!(trim_start_matches("aaab", "a"), "b");
    assert_eq!(trim_start_matches("abab", ""), "abab");
}

#[test]
fn path_field_or_missing() {
    assert_eq!(path_from_field(Some("/a/b.mp4".into())).unwrap(), "/a/b.mp4");
    assert_eq!(path_from_field(None).unwrap_err(), "下载结果中缺少文件路径");
    let obj: serde_json::Value = serde_json::from_str("{\"path\": 3}").unwrap();
    assert_eq!(downloaded_path(&obj).unwrap_err(), "下载结果中缺少文件路径");
}

#[test]
fn extractors_ignore_ascii_case_and_scripts_follow_the_list() {
    for url in ["https://www.Bilibili.com/v", "https://YOUTU.BE/x", "https://Weibo.CN/1", "https://example.ORG"] {
        let a = detect_extractor(url);
        assert_eq!(a, detect_extractor(&url.to_ascii_lowercase()));
        assert_eq!(a, detect_extractor(&url.to_ascii_uppercase()));
    }
    assert_eq!(extractor_for_lower("https://www.douyu.com/9"), "live");
    assert_eq!(extractor_for_lower("https://b23.tv/x"), "bilibili");
    for e in get_all_extensions() {
        let script = get_extension_script(&e.id).unwrap();
        if e.id == "compress" {
            assert_eq!(script, "src/extensions/compress/compressor.py");
        } else {
            assert_eq!(script, format!("src/extensions/{}/downloader.py", e.id));
        }
    }
}

#[test]
fn runtime_names_from_lowered_text_and_tray_by_os() {
    assert_eq!(RuntimeType::from_lower("js"), Some(RuntimeType::JavaScript));
    assert_eq!(RuntimeType::from_lower("wasm"), Some(RuntimeType::Wasm));
    assert_eq!(RuntimeType::from_lower("PY"), None);
    assert!(TrayIcon::for_os("windows").is_some());
    assert!(TrayIcon::for_os("linux").is_none());
}

#[test]
fn test_python_detection() {
    let rt = PythonRuntime::new(Some("python3".into()));
    assert!(rt.is_available(), "Python 应该可用");
    assert!(!PythonRuntime::new(None).is_available());
}
