use open_fetch::cli::{
    batch_command_args, collect_batch_urls, compress_command_args, decimal_string, extract_url,
    live_command_args, manifest_line, parse_url_list, search_manifests, trim_quotes,
};
use open_fetch::extension::ExtensionManifest;

fn manifest(name: &str, description: &str) -> ExtensionManifest {
    ExtensionManifest {
        name: name.into(),
        version: "1.0".into(),
        description: description.into(),
        ai_manifest: None,
        capabilities: vec![],
        platforms: vec![],
    }
}

#[test]
fn url_is_found_among_words() {
    assert_eq!(
        extract_url("下载这个B站视频 https://bilibili.com/video/BV1xx"),
        Some("https://bilibili.com/video/BV1xx".to_string())
    );
    assert_eq!(extract_url("get http://a.b/c\"> now"), Some("http://a.b/c".to_string()));
    assert_eq!(extract_url("get <http://a.b/c> now"), None);
    assert_eq!(extract_url("\"https://x.y\" and https://z'"), Some("https://z".to_string()));
    assert_eq!(extract_url("no address here"), None);
    assert_eq!(extract_url("ftp://a.b"), None);
}

#[test]
fn quotes_are_trimmed_from_both_ends() {
    assert_eq!(trim_quotes("'<\"x\">'"), "x");
    assert_eq!(trim_quotes("a'b"), "a'b");
    assert_eq!(trim_quotes("\"\""), "");
}

#[test]
fn url_list_skips_blank_lines_and_comments() {
    let content = "# my list\nhttps://a\n\n   https://b  \r\n#https://c\n";
    assert_eq!(parse_url_list(content), vec!["https://a".to_string(), "https://b".to_string()]);
    assert!(parse_url_list("").is_empty());
}

#[test]
fn batch_urls_come_from_file_then_arguments() {
    let all = collect_batch_urls(Some("x\n#y\nz"), Some(vec!["w".into()]));
    assert_eq!(all, vec!["x".to_string(), "z".to_string(), "w".to_string()]);
    assert!(collect_batch_urls(None, None).is_empty());
}

#[test]
fn numbers_print_in_decimal() {
    assert_eq!(decimal_string(0), "0");
    assert_eq!(decimal_string(7), "7");
    assert_eq!(decimal_string(1203), "1203");
    assert_eq!(decimal_string(u64::MAX), u64::MAX.to_string());
}

#[test]
fn script_arguments() {
    let urls = vec!["u1".to_string(), "u2".to_string()];
    assert_eq!(
        batch_command_args(&urls, 3),
        vec!["scripts/batch-download.py", "--urls", "u1", "u2", "--workers", "3"]
    );
    assert_eq!(
        compress_command_args("in.mp4", None, 23, "medium"),
        vec!["src/extensions/compress/compressor.py", "video", "--input", "in.mp4", "--crf", "23", "--preset", "medium"]
    );
    assert_eq!(
        compress_command_args("in.mp4", Some("out.mp4"), 28, "fast"),
        vec![
            "src/extensions/compress/compressor.py", "video", "--input", "in.mp4", "--crf", "28", "--preset", "fast",
            "--output", "out.mp4"
        ]
    );
    assert_eq!(
        live_command_args("https://live", "rec.flv"),
        vec!["src/extensions/live/downloader.py", "record", "--url", "https://live", "--output", "rec.flv"]
    );
}

#[test]
fn search_matches_name_or_description() {
    let ms = vec![manifest("bilibili", "B站视频"), manifest("youtube", "videos"), manifest("tool", "bilibili helper")];
    let found = search_manifests(&ms, "bilibili");
    let names: Vec<&str> = found.iter().map(|m| m.name.as_str()).collect();
    assert_eq!(names, vec!["bilibili", "tool"]);
    assert!(search_manifests(&ms, "nothing").is_empty());
}

#[test]
fn manifest_lines() {
    let m = manifest("bilibili", "B站视频");
    assert_eq!(manifest_line(&m, true), "  - bilibili v1.0: B站视频");
    assert_eq!(manifest_line(&m, false), "  - bilibili v1.0");
}
