//! The errors of the library.

use vstd::prelude::*;
use vstd::string::StringExecFns;

verus! {

/// An error of the downloader.
#[derive(Debug)]
pub enum OpenFetchError {
    ExtensionNotFound(String),
    DownloadFailed(String),
    ParseError(String),
    SyncFailed(String),
    StorageError(String),
    ConfigError(String),
    PermissionError(String),
}

/// The message of an error: its kind, a colon and its detail.
pub open spec fn error_message(e: OpenFetchError) -> Seq<char> {
    match e {
        OpenFetchError::ExtensionNotFound(s) => "扩展未找到: "@ + s@,
        OpenFetchError::DownloadFailed(s) => "下载失败: "@ + s@,
        OpenFetchError::ParseError(s) => "解析失败: "@ + s@,
        OpenFetchError::SyncFailed(s) => "同步失败: "@ + s@,
        OpenFetchError::StorageError(s) => "存储失败: "@ + s@,
        OpenFetchError::ConfigError(s) => "配置错误: "@ + s@,
        OpenFetchError::PermissionError(s) => "权限错误: "@ + s@,
    }
}

fn labelled(label: &str, detail: &str) -> (r: String)
    ensures
        r@ == label@ + detail@,
{
    let mut m = String::from_str(label);
    m.append(detail);
    m
}

impl OpenFetchError {
    /// The message of the error.
    pub fn message(&self) -> (r: String)
        ensures
            r@ == error_message(*self),
    {
        match self {
            OpenFetchError::ExtensionNotFound(s) => labelled("扩展未找到: ", s.as_str()),
            OpenFetchError::DownloadFailed(s) => labelled("下载失败: ", s.as_str()),
            OpenFetchError::ParseError(s) => labelled("解析失败: ", s.as_str()),
            OpenFetchError::SyncFailed(s) => labelled("同步失败: ", s.as_str()),
            OpenFetchError::StorageError(s) => labelled("存储失败: ", s.as_str()),
            OpenFetchError::ConfigError(s) => labelled("配置错误: ", s.as_str()),
            OpenFetchError::PermissionError(s) => labelled("权限错误: ", s.as_str()),
        }
    }
}

} // verus!
