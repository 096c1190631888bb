use open_fetch::engine::{choose_extension, extension_for_task, join, Config};
use open_fetch::error::OpenFetchError;
use open_fetch::extension::{AIManifest as ExtAI, ExtensionManifest, ExtensionRegistry};
use open_fetch::plugin::api::{
    default_priority, AIManifest, ConfidenceConfig, PluginCapability, PluginManifest, RuntimeType,
};
use open_fetch::plugin::registry::PluginRegistry;

fn plugin(id: &str, platforms: &[&str], keywords: &[&str]) -> PluginManifest {
    PluginManifest {
        id: id.into(),
        name: id.into(),
        version: "1.0.0".into(),
        description: format!("{} plugin", id),
        author: None,
        license: None,
        runtime: RuntimeType::Python,
        entry: "main.py".into(),
        platforms: platforms.iter().map(|s| s.to_string()).collect(),
        capabilities: vec![PluginCapability::Download],
        priority: default_priority(),
        ai: Some(AIManifest {
            description: "".into(),
            keywords: keywords.iter().map(|s| s.to_string()).collect(),
            examples: vec![],
            intent_patterns: vec![],
            confidence: ConfidenceConfig::default(),
        }),
        config: vec![],
    }
}

fn extension(name: &str, keywords: &[&str]) -> ExtensionManifest {
    ExtensionManifest {
        name: name.into(),
        version: "1.0.0".into(),
        description: format!("{} extension", name),
        ai_manifest: Some(ExtAI {
            description: "".into(),
            keywords: keywords.iter().map(|s| s.to_string()).collect(),
            examples: vec![],
            intent_patterns: vec![],
            confidence_keywords: vec![],
        }),
        capabilities: vec!["download".into()],
        platforms: vec![],
    }
}

#[test]
fn loaded_plugin_is_found_by_id() {
    let mut r = PluginRegistry::new();
    let m = r.load_plugin(plugin("bili", &["bilibili.com"], &["b站"]), "/plugins/bili".into());
    assert_eq!(m.id, "bili");
    assert_eq!(r.len(), 1);
    assert_eq!(r.get_manifest("bili").unwrap().id, "bili");
    assert_eq!(r.get_path("bili"), Some("/plugins/bili"));
    assert!(r.get_manifest("other").is_none());
    r.load_plugin(plugin("bili", &["b23.tv"], &[]), "/plugins/bili2".into());
    assert_eq!(r.len(), 1);
    assert_eq!(r.get_path("bili"), Some("/plugins/bili2"));
    assert_eq!(r.get_all_manifests()[0].platforms, vec!["b23.tv".to_string()]);
}

#[test]
fn intent_goes_to_the_best_plugin() {
    let mut r = PluginRegistry::new();
    r.load_plugin(plugin("bili", &["bilibili.com"], &["b站"]), "a".into());
    r.load_plugin(plugin("yt", &["youtube.com"], &["youtube"]), "b".into());
    assert_eq!(r.match_intent("下载b站视频"), Some("bili".to_string()));
    assert_eq!(r.match_intent("get https://youtube.com/x"), Some("yt".to_string()));
    assert_eq!(r.match_intent("zzz"), None);
}

#[test]
fn plugins_are_found_by_platform_and_capability() {
    let mut r = PluginRegistry::new();
    r.load_plugin(plugin("bili", &["bilibili.com"], &[]), "a".into());
    r.load_plugin(plugin("any", &[], &[]), "b".into());
    let ids: Vec<&str> = r.find_by_platform("https://www.bilibili.com/v").iter().map(|m| m.id.as_str()).collect();
    assert_eq!(ids, vec!["bili", "any"]);
    let ids: Vec<&str> = r.find_by_platform("https://youtube.com").iter().map(|m| m.id.as_str()).collect();
    assert_eq!(ids, vec!["any"]);
    assert_eq!(r.find_by_capability(&PluginCapability::Download).len(), 2);
    assert!(r.find_by_capability(&PluginCapability::Compress).is_empty());
}

#[test]
fn plugin_scores_in_half_points() {
    let p = plugin("bili", &["bilibili.com"], &["b站"]);
    assert_eq!(p.match_score("b站"), 4);
    assert_eq!(p.match_score("bilibili.com"), 10);
    assert_eq!(p.match_score("BILI"), 4 + 2);
    assert!(p.supports_url("https://bilibili.com/v"));
    assert!(!p.supports_url("https://youtube.com/v"));
}

#[test]
fn extension_registry_adds_gets_and_matches() {
    let mut r = ExtensionRegistry::new();
    assert!(r.is_empty());
    r.add_extension(extension("bilibili", &["b站"]), "ext/bilibili".into());
    r.add_extension(extension("youtube", &["youtube"]), "ext/youtube".into());
    assert_eq!(r.len(), 2);
    assert_eq!(r.get("bilibili").unwrap().path, "ext/bilibili");
    assert!(r.get("none").is_none());
    assert_eq!(r.match_intent("下载b站视频"), Some("bilibili".to_string()));
    assert_eq!(r.match_intent("qqq"), None);
    assert_eq!(r.get_all_manifests().len(), 2);
    assert_eq!(extension("x", &["k"]).match_score("k"), 2);
}

#[test]
fn engine_chooses_the_named_or_matched_extension() {
    let mut r = ExtensionRegistry::new();
    r.add_extension(extension("bilibili", &["bilibili"]), "d".into());
    assert_eq!(choose_extension(Some("mine"), &r, "https://x"), Some("mine".to_string()));
    assert_eq!(choose_extension(None, &r, "https://bilibili.com/v"), Some("bilibili".to_string()));
    assert_eq!(choose_extension(None, &r, "https://q"), None);
    assert!(extension_for_task(Some("bilibili"), &r).is_ok());
    match extension_for_task(None, &r) {
        Err(OpenFetchError::ExtensionNotFound(m)) => assert_eq!(m, "no extension specified"),
        _ => panic!("expected an error"),
    }
    match extension_for_task(Some("ghost"), &r) {
        Err(e) => assert_eq!(e.message(), "扩展未找到: ghost"),
        _ => panic!("expected an error"),
    }
}

#[test]
fn configuration_directories() {
    let c = Config::from_dirs(Some("/home/u/.local/share".into()), None);
    assert_eq!(c.data_dir, "/home/u/.local/share/open-fetch");
    assert_eq!(c.download_dir, "./open-fetch");
    assert_eq!(c.concurrent_downloads, 3);
    assert!(c.sync_enabled);
    assert_eq!(join("/a/", "b"), "/a/b");
    assert_eq!(join("", "b"), "b");
    let d = Config::default();
    assert!(d.data_dir.ends_with("open-fetch"));
}

#[test]
fn lowered_queries_score_as_their_originals() {
    let p = plugin("bili", &["bilibili.com"], &["b站"]);
    assert_eq!(p.match_score_lower("bili"), p.match_score("BILI"));
    assert_eq!(p.match_score_lower("bilibili.com"), 10);
    let e = extension("x", &["k"]);
    assert_eq!(e.match_score_lower("k"), 2);
    assert_eq!(e.match_score_lower("q"), 0);
}

#[test]
fn extension_registry_counts_one_per_name() {
    let mut r = ExtensionRegistry::new();
    r.add_extension(extension("bilibili", &["b站"]), "ext/old".into());
    r.add_extension(extension("bilibili", &["b站"]), "ext/new".into());
    r.add_extension(extension("youtube", &["youtube"]), "ext/youtube".into());
    assert_eq!(r.get_all_manifests().len(), 3);
    assert_eq!(r.len(), 2);
    assert!(!r.is_empty());
    assert_eq!(r.get("bilibili").unwrap().path, "ext/new");
}
