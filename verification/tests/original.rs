use open_fetch::cloud::auth::extract_api_key;
use open_fetch::plugin::api::{
    AIManifest, ConfidenceConfig, PluginCapability, PluginManifest, RuntimeType as ManifestRuntime,
};
use open_fetch::plugin::hooks::{HookContext, HookEvent, HookHandler, HookResult, HookSystem};
use open_fetch::plugin::registry::PluginRegistry;
use open_fetch::plugin::runtime::{PluginRuntime, RuntimeType};

#[test]
fn test_extract_api_key() {
    let key = extract_api_key(Some("Bearer test-key-123"));
    assert_eq!(key, Some("test-key-123".to_string()));
}

#[test]
fn test_ai_match_score() {
    let manifest = PluginManifest {
        id: "bilibili".into(),
        name: "Bilibili".into(),
        version: "1.0.0".into(),
        description: "B站下载".into(),
        author: None,
        license: None,
        runtime: ManifestRuntime::Python,
        entry: "bilibili.py".into(),
        platforms: vec!["bilibili.com".into()],
        capabilities: vec![PluginCapability::Download],
        priority: 50,
        ai: Some(AIManifest {
            description: "B站视频下载".into(),
            keywords: vec!["b站".into(), "bilibili".into(), "BV号".into()],
            examples: vec![],
            intent_patterns: vec!["下载*b站视频".into()],
            confidence: ConfidenceConfig { high: vec!["b站".into()], medium: vec![], low: vec![] },
        }),
        config: vec![],
    };

    assert!(manifest.match_score("下载这个b站视频") > 0);
    assert!(manifest.match_score("下载youtube视频") < manifest.match_score("下载b站视频"));
}

struct TestHook(u32);

impl HookHandler for TestHook {
    fn handle(&self, _event: HookEvent, _ctx: &HookContext) -> Result<HookResult, String> {
        let _ = self.0;
        Ok(HookResult::continue_())
    }

    fn name(&self) -> &'static str {
        "test-hook"
    }
}

#[test]
fn test_hook_system() {
    let mut system = HookSystem::new();
    system.register(HookEvent::PreDownload, TestHook(1));
    system.register(HookEvent::PostDownload, TestHook(2));

    let ctx = HookContext {
        event: HookEvent::PreDownload,
        task_id: Some("test-123".into()),
        url: Some("https://example.com".into()),
        plugin_id: None,
        data: Vec::new(),
    };

    let result = system.trigger(HookEvent::PreDownload, &ctx);
    assert!(result.proceed);

    let result = system.trigger(HookEvent::PostDownload, &ctx);
    assert!(result.proceed);
}

#[test]
fn test_registry_empty() {
    let registry = PluginRegistry::new();
    assert!(registry.is_empty());
    assert!(registry.match_intent("test").is_none());
}

#[test]
fn test_runtime_detection() {
    let runtime = PluginRuntime::new();
    let py_status = runtime.status(RuntimeType::Python);
    assert!(py_status.available);
}

#[test]
fn manifest_with_listed_platform_supports_its_urls() {
    let manifest = PluginManifest {
        id: "test-plugin".into(),
        name: "Test Plugin".into(),
        version: "1.0.0".into(),
        description: "A test plugin".into(),
        author: None,
        license: None,
        runtime: ManifestRuntime::Python,
        entry: "test.py".into(),
        platforms: vec!["example.com".into()],
        capabilities: vec![PluginCapability::Download],
        priority: 50,
        ai: None,
        config: vec![],
    };
    assert_eq!(manifest.id, "test-plugin");
    assert!(manifest.supports_url("https://example.com/video"));
    assert!(!manifest.supports_url("https://other.com/video"));
}
