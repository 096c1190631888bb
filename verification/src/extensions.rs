//! The built-in extensions: their descriptions, their scripts, and the
//! extension that handles a URL.

use vstd::prelude::*;
use vstd::string::StringExecFns;
use crate::text::{ascii_lower, ascii_upper, chars_of, contains_chars, contains_seq, is_ascii_seq, lemma_ascii_fold, lowercase, str_eq, to_lowercase, views};

verus! {

/// The description of an extension.
#[derive(Debug)]
pub struct ExtensionInfo {
    pub id: String,
    pub name: String,
    pub version: String,
    pub description: String,
    pub platforms: Vec<String>,
    pub enabled: bool,
    pub ai_capable: bool,
}

pub struct ExtensionInfoView {
    pub id: Seq<char>,
    pub name: Seq<char>,
    pub version: Seq<char>,
    pub description: Seq<char>,
    pub platforms: Seq<Seq<char>>,
    pub enabled: bool,
    pub ai_capable: bool,
}

impl View for ExtensionInfo {
    type V = ExtensionInfoView;

    open spec fn view(&self) -> ExtensionInfoView {
        ExtensionInfoView {
            id: self.id@,
            name: self.name@,
            version: self.version@,
            description: self.description@,
            platforms: views(self.platforms@),
            enabled: self.enabled,
            ai_capable: self.ai_capable,
        }
    }
}

pub open spec fn info_views(v: Seq<ExtensionInfo>) -> Seq<ExtensionInfoView> {
    v.map_values(|e: ExtensionInfo| e@)
}

/// An enabled, AI-capable extension at version 1.0.0.
pub open spec fn builtin(id: Seq<char>, name: Seq<char>, description: Seq<char>, platforms: Seq<Seq<char>>) -> ExtensionInfoView {
    ExtensionInfoView {
        id,
        name,
        version: "1.0.0"@,
        description,
        platforms,
        enabled: true,
        ai_capable: true,
    }
}

/// The built-in extensions.
pub open spec fn builtin_extensions() -> Seq<ExtensionInfoView> {
    seq![
        builtin("universal"@, "通用下载器"@, "基于yt-dlp，支持50+平台通用下载"@, seq!["video"@, "audio"@, "image"@]),
        builtin("bilibili"@, "B站下载器"@, "B站视频/番剧/直播/漫画下载，支持弹幕字幕封面"@, seq!["video"@, "live"@, "comic"@]),
        builtin("youtube"@, "YouTube下载器"@, "YouTube视频/Shorts/音乐下载，支持4K/8K"@, seq!["video"@, "music"@, "live"@]),
        builtin("douyin"@, "抖音/TikTok下载器"@, "抖音/TikTok无水印下载，支持作者批量"@, seq!["video"@, "short_video"@]),
        builtin("weibo"@, "微博下载器"@, "微博/秒拍视频下载"@, seq!["video"@]),
        builtin("twitter"@, "Twitter/X下载器"@, "Twitter/X视频/图片下载"@, seq!["video"@, "image"@]),
        builtin("instagram"@, "Instagram下载器"@, "Instagram图片/视频/Reels/Stories下载"@, seq!["image"@, "video"@]),
        builtin("xiaohongshu"@, "小红书下载器"@, "小红书笔记/视频/图文下载"@, seq!["video"@, "image"@, "article"@]),
        builtin("zhihu"@, "知乎下载器"@, "知乎文章/视频/问答下载"@, seq!["article"@, "video"@]),
        builtin("kuishou"@, "快手下载器"@, "快手视频/直播下载"@, seq!["video"@, "live"@]),
        builtin("live"@, "直播录制器"@, "多平台直播录制，B站/抖音/斗鱼/虎牙/Twitch"@, seq!["live"@]),
        builtin("compress"@, "音视频压缩器"@, "FFmpeg驱动，高质量压缩，支持批量"@, seq!["tool"@]),
    ]
}

/// A list of one string.
pub(crate) fn list1(a: &str) -> (r: Vec<String>)
    ensures
        views(r@) == seq![a@],
{
    let mut r: Vec<String> = Vec::new();
    r.push(String::from_str(a));
    assert(views(r@) =~= seq![a@]);
    r
}

/// A list of two strings.
pub(crate) fn list2(a: &str, b: &str) -> (r: Vec<String>)
    ensures
        views(r@) == seq![a@, b@],
{
    let mut r: Vec<String> = Vec::new();
    r.push(String::from_str(a));
    r.push(String::from_str(b));
    assert(views(r@) =~= seq![a@, b@]);
    r
}

/// A list of three strings.
pub(crate) fn list3(a: &str, b: &str, c: &str) -> (r: Vec<String>)
    ensures
        views(r@) == seq![a@, b@, c@],
{
    let mut r: Vec<String> = Vec::new();
    r.push(String::from_str(a));
    r.push(String::from_str(b));
    r.push(String::from_str(c));
    assert(views(r@) =~= seq![a@, b@, c@]);
    r
}

fn builtin_info(id: &str, name: &str, description: &str, platforms: Vec<String>) -> (r: ExtensionInfo)
    ensures
        r@ == builtin(id@, name@, description@, views(platforms@)),
{
    ExtensionInfo {
        id: String::from_str(id),
        name: String::from_str(name),
        version: String::from_str("1.0.0"),
        description: String::from_str(description),
        platforms,
        enabled: true,
        ai_capable: true,
    }
}

/// All built-in extensions.
pub fn get_all_extensions() -> (r: Vec<ExtensionInfo>)
    ensures
        info_views(r@) == builtin_extensions(),
{
    let mut v: Vec<ExtensionInfo> = Vec::new();
    v.push(builtin_info("universal", "通用下载器", "基于yt-dlp，支持50+平台通用下载", list3("video", "audio", "image")));
    v.push(builtin_info("bilibili", "B站下载器", "B站视频/番剧/直播/漫画下载，支持弹幕字幕封面", list3("video", "live", "comic")));
    v.push(builtin_info("youtube", "YouTube下载器", "YouTube视频/Shorts/音乐下载，支持4K/8K", list3("video", "music", "live")));
    v.push(builtin_info("douyin", "抖音/TikTok下载器", "抖音/TikTok无水印下载，支持作者批量", list2("video", "short_video")));
    v.push(builtin_info("weibo", "微博下载器", "微博/秒拍视频下载", list1("video")));
    v.push(builtin_info("twitter", "Twitter/X下载器", "Twitter/X视频/图片下载", list2("video", "image")));
    v.push(builtin_info("instagram", "Instagram下载器", "Instagram图片/视频/Reels/Stories下载", list2("image", "video")));
    v.push(builtin_info("xiaohongshu", "小红书下载器", "小红书笔记/视频/图文下载", list3("video", "image", "article")));
    v.push(builtin_info("zhihu", "知乎下载器", "知乎文章/视频/问答下载", list2("article", "video")));
    v.push(builtin_info("kuishou", "快手下载器", "快手视频/直播下载", list2("video", "live")));
    v.push(builtin_info("live", "直播录制器", "多平台直播录制，B站/抖音/斗鱼/虎牙/Twitch", list1("live")));
    v.push(builtin_info("compress", "音视频压缩器", "FFmpeg驱动，高质量压缩，支持批量", list1("tool")));
    assert(info_views(v@) =~= builtin_extensions());
    v
}

/// The script of a built-in extension.
pub open spec fn script_of(id: Seq<char>) -> Option<Seq<char>> {
    if id == "universal"@ {
        Some("src/extensions/universal/downloader.py"@)
    } else if id == "bilibili"@ {
        Some("src/extensions/bilibili/downloader.py"@)
    } else if id == "youtube"@ {
        Some("src/extensions/youtube/downloader.py"@)
    } else if id == "douyin"@ {
        Some("src/extensions/douyin/downloader.py"@)
    } else if id == "weibo"@ {
        Some("src/extensions/weibo/downloader.py"@)
    } else if id == "twitter"@ {
        Some("src/extensions/twitter/downloader.py"@)
    } else if id == "instagram"@ {
        Some("src/extensions/instagram/downloader.py"@)
    } else if id == "xiaohongshu"@ {
        Some("src/extensions/xiaohongshu/downloader.py"@)
    } else if id == "zhihu"@ {
        Some("src/extensions/zhihu/downloader.py"@)
    } else if id == "kuishou"@ {
        Some("src/extensions/kuishou/downloader.py"@)
    } else if id == "live"@ {
        Some("src/extensions/live/downloader.py"@)
    } else if id == "compress"@ {
        Some("src/extensions/compress/compressor.py"@)
    } else {
        None
    }
}

/// The script that runs the built-in extension `id`.
pub fn get_extension_script(id: &str) -> (r: Option<&'static str>)
    ensures
        match r {
            Some(p) => script_of(id@) == Some(p@),
            None => script_of(id@) is None,
        },
{
    if str_eq(id, "universal") {
        Some("src/extensions/universal/downloader.py")
    } else if str_eq(id, "bilibili") {
        Some("src/extensions/bilibili/downloader.py")
    } else if str_eq(id, "youtube") {
        Some("src/extensions/youtube/downloader.py")
    } else if str_eq(id, "douyin") {
        Some("src/extensions/douyin/downloader.py")
    } else if str_eq(id, "weibo") {
        Some("src/extensions/weibo/downloader.py")
    } else if str_eq(id, "twitter") {
        Some("src/extensions/twitter/downloader.py")
    } else if str_eq(id, "instagram") {
        Some("src/extensions/instagram/downloader.py")
    } else if str_eq(id, "xiaohongshu") {
        Some("src/extensions/xiaohongshu/downloader.py")
    } else if str_eq(id, "zhihu") {
        Some("src/extensions/zhihu/downloader.py")
    } else if str_eq(id, "kuishou") {
        Some("src/extensions/kuishou/downloader.py")
    } else if str_eq(id, "live") {
        Some("src/extensions/live/downloader.py")
    } else if str_eq(id, "compress") {
        Some("src/extensions/compress/compressor.py")
    } else {
        None
    }
}

/// Law: on an ASCII URL the extractor does not depend on letter case: the
/// URL, its ASCII lowercase and its ASCII uppercase are all ASCII and fold to
/// the same lowercase text, so `detect_extractor` gives each the same answer.
pub proof fn law_extractor_ignores_ascii_case(url: Seq<char>)
    requires
        is_ascii_seq(url),
    ensures
        is_ascii_seq(ascii_lower(url)),
        is_ascii_seq(ascii_upper(url)),
        extractor_in(ascii_lower(ascii_lower(url))) == extractor_in(ascii_lower(url)),
        extractor_in(ascii_lower(ascii_upper(url))) == extractor_in(ascii_lower(url)),
{
    lemma_ascii_fold(url);
}

/// Law: the built-in extensions that have a script are exactly those that
/// `get_all_extensions` lists; the script of each is its `downloader.py`,
/// but for the compressor, whose script is `compressor.py`.
pub proof fn law_scripts_match_extensions(id: Seq<char>)
    ensures
        (script_of(id) is Some) <==> exists|i: int| 0 <= i < builtin_extensions().len() && #[trigger] builtin_extensions()[i].id == id,
        script_of(id) is Some && id != "compress"@ ==> script_of(id) == Some("src/extensions/"@ + id + "/downloader.py"@),
        script_of("compress"@) == Some("src/extensions/compress/compressor.py"@),
{
    reveal_strlit("src/extensions/");
    reveal_strlit("/downloader.py");
    reveal_strlit("universal");
    reveal_strlit("bilibili");
    reveal_strlit("youtube");
    reveal_strlit("douyin");
    reveal_strlit("weibo");
    reveal_strlit("twitter");
    reveal_strlit("instagram");
    reveal_strlit("xiaohongshu");
    reveal_strlit("zhihu");
    reveal_strlit("kuishou");
    reveal_strlit("live");
    reveal_strlit("compress");
    reveal_strlit("src/extensions/universal/downloader.py");
    reveal_strlit("src/extensions/bilibili/downloader.py");
    reveal_strlit("src/extensions/youtube/downloader.py");
    reveal_strlit("src/extensions/douyin/downloader.py");
    reveal_strlit("src/extensions/weibo/downloader.py");
    reveal_strlit("src/extensions/twitter/downloader.py");
    reveal_strlit("src/extensions/instagram/downloader.py");
    reveal_strlit("src/extensions/xiaohongshu/downloader.py");
    reveal_strlit("src/extensions/zhihu/downloader.py");
    reveal_strlit("src/extensions/kuishou/downloader.py");
    reveal_strlit("src/extensions/live/downloader.py");
    reveal_strlit("src/extensions/compress/compressor.py");
    let c = "compress"@;
    assert(c.len() != "universal"@.len() && c[0] != "bilibili"@[0] && c.len() != "youtube"@.len()
        && c.len() != "douyin"@.len() && c.len() != "weibo"@.len() && c.len() != "twitter"@.len()
        && c.len() != "instagram"@.len() && c.len() != "xiaohongshu"@.len() && c.len() != "zhihu"@.len()
        && c[0] != "kuishou"@[0] && c.len() != "live"@.len());
    assert("compress"@ != "universal"@ && "compress"@ != "bilibili"@ && "compress"@ != "youtube"@
        && "compress"@ != "douyin"@ && "compress"@ != "weibo"@ && "compress"@ != "twitter"@
        && "compress"@ != "instagram"@ && "compress"@ != "xiaohongshu"@ && "compress"@ != "zhihu"@
        && "compress"@ != "kuishou"@ && "compress"@ != "live"@);
    let b = builtin_extensions();
    if script_of(id) is Some {
        let i: int = if id == "universal"@ { 0 } else if id == "bilibili"@ { 1 } else if id == "youtube"@ { 2 }
            else if id == "douyin"@ { 3 } else if id == "weibo"@ { 4 } else if id == "twitter"@ { 5 }
            else if id == "instagram"@ { 6 } else if id == "xiaohongshu"@ { 7 } else if id == "zhihu"@ { 8 }
            else if id == "kuishou"@ { 9 } else if id == "live"@ { 10 } else { 11 };
        assert(b[i].id == id);
        if id != "compress"@ {
            assert(script_of(id)->0 =~= "src/extensions/"@ + id + "/downloader.py"@);
        }
    }
    if exists|i: int| 0 <= i < b.len() && #[trigger] b[i].id == id {
        let i = choose|i: int| 0 <= i < b.len() && #[trigger] b[i].id == id;
        assert(0 <= i < 12);
    }
}

/// Law: the built-in extension that each known host goes to. A URL (in
/// lower case) is sent by the first host of this table that it contains:
/// bilibili.com and b23.tv to "bilibili"; youtube.com and youtu.be to
/// "youtube"; douyin.com, iesdouyin.com and tiktok.com to "douyin";
/// weibo.com and weibo.cn to "weibo"; twitter.com and x.com to "twitter";
/// instagram.com to "instagram"; xiaohongshu.com and xhs.co to
/// "xiaohongshu"; zhihu.com to "zhihu"; kuaishou.com and ksyun.com to
/// "kuishou"; twitch.tv, douyu.com and huya.com to "live"; a URL with none
/// of them to "universal". Every answer is the id of a built-in extension.
pub proof fn law_extractor_hosts(u: Seq<char>)
    ensures
        contains_seq(u, "bilibili.com"@) || contains_seq(u, "b23.tv"@) ==> extractor_in(u) == "bilibili"@,
        !contains_seq(u, "bilibili.com"@) && !contains_seq(u, "b23.tv"@)
            && (contains_seq(u, "youtube.com"@) || contains_seq(u, "youtu.be"@)) ==> extractor_in(u) == "youtube"@,
        !contains_seq(u, "bilibili.com"@) && !contains_seq(u, "b23.tv"@)
            && !contains_seq(u, "youtube.com"@) && !contains_seq(u, "youtu.be"@)
            && (contains_seq(u, "douyin.com"@) || contains_seq(u, "iesdouyin.com"@) || contains_seq(u, "tiktok.com"@))
            ==> extractor_in(u) == "douyin"@,
        !contains_seq(u, "bilibili.com"@) && !contains_seq(u, "b23.tv"@)
            && !contains_seq(u, "youtube.com"@) && !contains_seq(u, "youtu.be"@)
            && !contains_seq(u, "douyin.com"@) && !contains_seq(u, "iesdouyin.com"@) && !contains_seq(u, "tiktok.com"@)
            && (contains_seq(u, "weibo.com"@) || contains_seq(u, "weibo.cn"@)) ==> extractor_in(u) == "weibo"@,
        !contains_seq(u, "bilibili.com"@) && !contains_seq(u, "b23.tv"@)
            && !contains_seq(u, "youtube.com"@) && !contains_seq(u, "youtu.be"@)
            && !contains_seq(u, "douyin.com"@) && !contains_seq(u, "iesdouyin.com"@) && !contains_seq(u, "tiktok.com"@)
            && !contains_seq(u, "weibo.com"@) && !contains_seq(u, "weibo.cn"@)
            && (contains_seq(u, "twitter.com"@) || contains_seq(u, "x.com"@)) ==> extractor_in(u) == "twitter"@,
        !contains_seq(u, "bilibili.com"@) && !contains_seq(u, "b23.tv"@)
            && !contains_seq(u, "youtube.com"@) && !contains_seq(u, "youtu.be"@)
            && !contains_seq(u, "douyin.com"@) && !contains_seq(u, "iesdouyin.com"@) && !contains_seq(u, "tiktok.com"@)
            && !contains_seq(u, "weibo.com"@) && !contains_seq(u, "weibo.cn"@)
            && !contains_seq(u, "twitter.com"@) && !contains_seq(u, "x.com"@)
            && contains_seq(u, "instagram.com"@) ==> extractor_in(u) == "instagram"@,
        !contains_seq(u, "bilibili.com"@) && !contains_seq(u, "b23.tv"@)
            && !contains_seq(u, "youtube.com"@) && !contains_seq(u, "youtu.be"@)
            && !contains_seq(u, "douyin.com"@) && !contains_seq(u, "iesdouyin.com"@) && !contains_seq(u, "tiktok.com"@)
            && !contains_seq(u, "weibo.com"@) && !contains_seq(u, "weibo.cn"@)
            && !contains_seq(u, "twitter.com"@) && !contains_seq(u, "x.com"@)
            && !contains_seq(u, "instagram.com"@)
            && (contains_seq(u, "xiaohongshu.com"@) || contains_seq(u, "xhs.co"@)) ==> extractor_in(u) == "xiaohongshu"@,
        !contains_seq(u, "bilibili.com"@) && !contains_seq(u, "b23.tv"@)
            && !contains_seq(u, "youtube.com"@) && !contains_seq(u, "youtu.be"@)
            && !contains_seq(u, "douyin.com"@) && !contains_seq(u, "iesdouyin.com"@) && !contains_seq(u, "tiktok.com"@)
            && !contains_seq(u, "weibo.com"@) && !contains_seq(u, "weibo.cn"@)
            && !contains_seq(u, "twitter.com"@) && !contains_seq(u, "x.com"@)
            && !contains_seq(u, "instagram.com"@)
            && !contains_seq(u, "xiaohongshu.com"@) && !contains_seq(u, "xhs.co"@)
            && contains_seq(u, "zhihu.com"@) ==> extractor_in(u) == "zhihu"@,
        !contains_seq(u, "bilibili.com"@) && !contains_seq(u, "b23.tv"@)
            && !contains_seq(u, "youtube.com"@) && !contains_seq(u, "youtu.be"@)
            && !contains_seq(u, "douyin.com"@) && !contains_seq(u, "iesdouyin.com"@) && !contains_seq(u, "tiktok.com"@)
            && !contains_seq(u, "weibo.com"@) && !contains_seq(u, "weibo.cn"@)
            && !contains_seq(u, "twitter.com"@) && !contains_seq(u, "x.com"@)
            && !contains_seq(u, "instagram.com"@)
            && !contains_seq(u, "xiaohongshu.com"@) && !contains_seq(u, "xhs.co"@)
            && !contains_seq(u, "zhihu.com"@)
            && (contains_seq(u, "kuaishou.com"@) || contains_seq(u, "ksyun.com"@)) ==> extractor_in(u) == "kuishou"@,
        !contains_seq(u, "bilibili.com"@) && !contains_seq(u, "b23.tv"@)
            && !contains_seq(u, "youtube.com"@) && !contains_seq(u, "youtu.be"@)
            && !contains_seq(u, "douyin.com"@) && !contains_seq(u, "iesdouyin.com"@) && !contains_seq(u, "tiktok.com"@)
            && !contains_seq(u, "weibo.com"@) && !contains_seq(u, "weibo.cn"@)
            && !contains_seq(u, "twitter.com"@) && !contains_seq(u, "x.com"@)
            && !contains_seq(u, "instagram.com"@)
            && !contains_seq(u, "xiaohongshu.com"@) && !contains_seq(u, "xhs.co"@)
            && !contains_seq(u, "zhihu.com"@)
            && !contains_seq(u, "kuaishou.com"@) && !contains_seq(u, "ksyun.com"@)
            && (contains_seq(u, "twitch.tv"@) || contains_seq(u, "douyu.com"@) || contains_seq(u, "huya.com"@))
            ==> extractor_in(u) == "live"@,
        !contains_seq(u, "bilibili.com"@) && !contains_seq(u, "b23.tv"@)
            && !contains_seq(u, "youtube.com"@) && !contains_seq(u, "youtu.be"@)
            && !contains_seq(u, "douyin.com"@) && !contains_seq(u, "iesdouyin.com"@) && !contains_seq(u, "tiktok.com"@)
            && !contains_seq(u, "weibo.com"@) && !contains_seq(u, "weibo.cn"@)
            && !contains_seq(u, "twitter.com"@) && !contains_seq(u, "x.com"@)
            && !contains_seq(u, "instagram.com"@)
            && !contains_seq(u, "xiaohongshu.com"@) && !contains_seq(u, "xhs.co"@)
            && !contains_seq(u, "zhihu.com"@)
            && !contains_seq(u, "kuaishou.com"@) && !contains_seq(u, "ksyun.com"@)
            && !contains_seq(u, "twitch.tv"@) && !contains_seq(u, "douyu.com"@) && !contains_seq(u, "huya.com"@)
            ==> extractor_in(u) == "universal"@,
        exists|i: int| 0 <= i < builtin_extensions().len() && #[trigger] builtin_extensions()[i].id == extractor_in(u),
{
    let r = extractor_in(u);
    law_scripts_match_extensions(r);
    reveal_strlit("universal");
    reveal_strlit("bilibili");
    reveal_strlit("youtube");
    reveal_strlit("douyin");
    reveal_strlit("weibo");
    reveal_strlit("twitter");
    reveal_strlit("instagram");
    reveal_strlit("xiaohongshu");
    reveal_strlit("zhihu");
    reveal_strlit("kuishou");
    reveal_strlit("live");
}

/// The built-in extension for a URL, by the host names its lowercase form
/// contains; "universal" when none is known.
pub open spec fn extractor_of(url: Seq<char>) -> Seq<char> {
    extractor_in(lowercase(url))
}

/// The built-in extension for a URL already in lower case `u`, by the host
/// names it contains; "universal" when none is known.
pub open spec fn extractor_in(u: Seq<char>) -> Seq<char> {
    if contains_seq(u, "bilibili.com"@) || contains_seq(u, "b23.tv"@) {
        "bilibili"@
    } else if contains_seq(u, "youtube.com"@) || contains_seq(u, "youtu.be"@) {
        "youtube"@
    } else if contains_seq(u, "douyin.com"@) || contains_seq(u, "iesdouyin.com"@) || contains_seq(u, "tiktok.com"@) {
        "douyin"@
    } else if contains_seq(u, "weibo.com"@) || contains_seq(u, "weibo.cn"@) {
        "weibo"@
    } else if contains_seq(u, "twitter.com"@) || contains_seq(u, "x.com"@) {
        "twitter"@
    } else if contains_seq(u, "instagram.com"@) {
        "instagram"@
    } else if contains_seq(u, "xiaohongshu.com"@) || contains_seq(u, "xhs.co"@) {
        "xiaohongshu"@
    } else if contains_seq(u, "zhihu.com"@) {
        "zhihu"@
    } else if contains_seq(u, "kuaishou.com"@) || contains_seq(u, "ksyun.com"@) {
        "kuishou"@
    } else if contains_seq(u, "twitch.tv"@) || contains_seq(u, "douyu.com"@) || contains_seq(u, "huya.com"@) {
        "live"@
    } else {
        "universal"@
    }
}

/// Whether `u` contains `p`.
fn has(u: &Vec<char>, p: &str) -> (r: bool)
    ensures
        r == contains_seq(u@, p@),
{
    contains_chars(u, &chars_of(p))
}

/// The built-in extension that handles `url`.
pub fn detect_extractor(url: &str) -> (r: &'static str)
    ensures
        r@ == extractor_of(url@),
        is_ascii_seq(url@) ==> r@ == extractor_in(ascii_lower(url@)),
{
    let lower = to_lowercase(url);
    extractor_for_lower(lower.as_str())
}

/// The built-in extension that handles a URL already in lower case.
pub fn extractor_for_lower(lower: &str) -> (r: &'static str)
    ensures
        r@ == extractor_in(lower@),
{
    let u = chars_of(lower);
    if has(&u, "bilibili.com") || has(&u, "b23.tv") {
        "bilibili"
    } else if has(&u, "youtube.com") || has(&u, "youtu.be") {
        "youtube"
    } else if has(&u, "douyin.com") || has(&u, "iesdouyin.com") || has(&u, "tiktok.com") {
        "douyin"
    } else if has(&u, "weibo.com") || has(&u, "weibo.cn") {
        "weibo"
    } else if has(&u, "twitter.com") || has(&u, "x.com") {
        "twitter"
    } else if has(&u, "instagram.com") {
        "instagram"
    } else if has(&u, "xiaohongshu.com") || has(&u, "xhs.co") {
        "xiaohongshu"
    } else if has(&u, "zhihu.com") {
        "zhihu"
    } else if has(&u, "kuaishou.com") || has(&u, "ksyun.com") {
        "kuishou"
    } else if has(&u, "twitch.tv") {
        "live"
    } else if has(&u, "douyu.com") {
        "live"
    } else if has(&u, "huya.com") {
        "live"
    } else {
        "universal"
    }
}

} // verus!
