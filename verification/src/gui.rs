//! The state of the desktop window and what its controls do to it; the
//! drawing itself stays with the window toolkit.

use vstd::prelude::*;
use vstd::string::StringExecFns;
use crate::text::str_eq;

verus! {

/// The window's state: the URL typed in, the platform chosen, and the
/// status line.
#[derive(Debug)]
pub struct OpenFetchApp {
    pub url: String,
    pub platform: String,
    pub status: String,
}

impl Default for OpenFetchApp {
    /// An empty URL, platform "auto", status "就绪" (ready).
    fn default() -> (r: Self)
        ensures
            r.url@.len() == 0,
            r.platform@ == "auto"@,
            r.status@ == "就绪"@,
    {
        OpenFetchApp { url: String::new(), platform: String::from_str("auto"), status: String::from_str("就绪") }
    }
}

/// The status after the download button is pressed with `url` typed in.
pub open spec fn download_status(url: Seq<char>) -> Seq<char> {
    if url.len() > 0 {
        "正在下载: "@ + url + " ..."@
    } else {
        "请输入视频链接"@
    }
}

impl OpenFetchApp {
    /// The download button: the status shows the URL being downloaded, or
    /// asks for a URL when none is typed in.
    pub fn on_download_clicked(&mut self)
        ensures
            final(self).status@ == download_status(old(self).url@),
            final(self).url@ == old(self).url@,
            final(self).platform@ == old(self).platform@,
    {
        if self.url.unicode_len() > 0 {
            let mut s = String::from_str("正在下载: ");
            s.append(self.url.as_str());
            s.append(" ...");
            self.status = s;
        } else {
            self.status = String::from_str("请输入视频链接");
        }
    }

    /// The status line shown under the button.
    pub fn status_line(&self) -> (r: String)
        ensures
            r@ == "状态: "@ + self.status@,
    {
        let mut s = String::from_str("状态: ");
        s.append(self.status.as_str());
        s
    }
}

/// The system tray icon. Only Windows has one; elsewhere none is made.
#[derive(Debug)]
pub struct TrayIcon {}

impl TrayIcon {
    /// The tray icon of a build for other systems than Windows: none.
    pub fn new() -> (r: Option<Self>)
        ensures
            r is None,
    {
        None
    }

    /// The tray icon on the operating system named `os` (as
    /// `std::env::consts::OS` names it): one on "windows", none elsewhere.
    pub fn for_os(os: &str) -> (r: Option<Self>)
        ensures
            r is Some <==> os@ == "windows"@,
    {
        if str_eq(os, "windows") {
            Some(TrayIcon {})
        } else {
            None
        }
    }

    /// The text of a notification with `title` and `message`.
    pub fn notification_text(&self, title: &str, message: &str) -> (r: String)
        ensures
            r@ == "[通知] "@ + title@ + ": "@ + message@,
    {
        let mut s = String::from_str("[通知] ");
        s.append(title);
        s.append(": ");
        s.append(message);
        s
    }
}

} // verus!
