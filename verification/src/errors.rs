//! The failures that the library reports, and the text each one shows.

use vstd::prelude::*;
use crate::text::{decimal_text, push_signed_decimal};

verus! {

/// A failure of one step of the work on a favorites folder.
#[derive(Debug)]
pub enum FavlistError {
    /// The folder link does not parse, or names no folder.
    InvalidUrl(String),
    /// The request did not reach the server, or no answer came back.
    Request(String),
    /// The server answered with a failure of its own.
    Api { code: i32, message: String },
    /// The answer is not the JSON that was expected.
    InvalidJson(String),
    /// A file could not be read or written.
    Io(String),
    /// The ledger is not well-formed CSV.
    Csv(String),
    /// The text encoding of this name is not known.
    UnsupportedEncoding(String),
    /// The text encoding cannot hold a character.
    Encoding(String),
    /// Anything else.
    Other(String),
}

/// A `FavlistError` with its texts as sequences of characters.
pub enum FavlistErrorView {
    InvalidUrl(Seq<char>),
    Request(Seq<char>),
    Api { code: i32, message: Seq<char> },
    InvalidJson(Seq<char>),
    Io(Seq<char>),
    Csv(Seq<char>),
    UnsupportedEncoding(Seq<char>),
    Encoding(Seq<char>),
    Other(Seq<char>),
}

impl FavlistErrorView {
    /// The line that the failure shows to a reader.
    pub open spec fn text(self) -> Seq<char> {
        match self {
            FavlistErrorView::InvalidUrl(m) => "无法解析收藏夹链接: "@ + m,
            FavlistErrorView::Request(m) => "网络请求失败: "@ + m,
            FavlistErrorView::Api { code, message } => "API响应错误(code="@ + decimal_text(
                code as int,
            ) + ", message="@ + message + ")"@,
            FavlistErrorView::InvalidJson(m) => "响应不是有效的JSON: "@ + m,
            FavlistErrorView::Io(m) => "读取文件失败: "@ + m,
            FavlistErrorView::Csv(m) => "CSV解析失败: "@ + m,
            FavlistErrorView::UnsupportedEncoding(label) => "编码转换失败: 不支持的编码: "@ + label,
            FavlistErrorView::Encoding(m) => "编码转换失败: "@ + m,
            FavlistErrorView::Other(m) => "未知错误: "@ + m,
        }
    }
}

impl View for FavlistError {
    type V = FavlistErrorView;

    open spec fn view(&self) -> FavlistErrorView {
        match self {
            FavlistError::InvalidUrl(m) => FavlistErrorView::InvalidUrl(m@),
            FavlistError::Request(m) => FavlistErrorView::Request(m@),
            FavlistError::Api { code, message } => FavlistErrorView::Api {
                code: *code,
                message: message@,
            },
            FavlistError::InvalidJson(m) => FavlistErrorView::InvalidJson(m@),
            FavlistError::Io(m) => FavlistErrorView::Io(m@),
            FavlistError::Csv(m) => FavlistErrorView::Csv(m@),
            FavlistError::UnsupportedEncoding(label) => FavlistErrorView::UnsupportedEncoding(
                label@,
            ),
            FavlistError::Encoding(m) => FavlistErrorView::Encoding(m@),
            FavlistError::Other(m) => FavlistErrorView::Other(m@),
        }
    }
}

/// `prefix` followed by `rest`.
pub fn join2(prefix: &str, rest: &str) -> (r: String)
    ensures
        r@ == prefix@ + rest@,
{
    let mut r = prefix.to_owned();
    r.append(rest);
    r
}

impl FavlistError {
    /// The line that the failure shows to a reader.
    pub fn to_string(&self) -> (r: String)
        ensures
            r@ == self@.text(),
    {
        match self {
            FavlistError::InvalidUrl(m) => join2("无法解析收藏夹链接: ", m.as_str()),
            FavlistError::Request(m) => join2("网络请求失败: ", m.as_str()),
            FavlistError::Api { code, message } => {
                let mut r = "API响应错误(code=".to_owned();
                push_signed_decimal(&mut r, *code as i64);
                r.append(", message=");
                r.append(message.as_str());
                r.append(")");
                r
            },
            FavlistError::InvalidJson(m) => join2("响应不是有效的JSON: ", m.as_str()),
            FavlistError::Io(m) => join2("读取文件失败: ", m.as_str()),
            FavlistError::Csv(m) => join2("CSV解析失败: ", m.as_str()),
            FavlistError::UnsupportedEncoding(label) => join2(
                "编码转换失败: 不支持的编码: ",
                label.as_str(),
            ),
            FavlistError::Encoding(m) => join2("编码转换失败: ", m.as_str()),
            FavlistError::Other(m) => join2("未知错误: ", m.as_str()),
        }
    }
}

/// A failure of an export, with what was being done where that is known.
#[derive(Debug)]
pub enum ExportError {
    /// A step of the export failed.
    Core(FavlistError),
    /// A failure with the words of the caller put before it.
    Context(String),
}

/// An `ExportError` with its texts as sequences of characters.
pub enum ExportErrorView {
    Core(FavlistErrorView),
    Context(Seq<char>),
}

impl ExportErrorView {
    /// The line that the failure shows to a reader.
    pub open spec fn text(self) -> Seq<char> {
        match self {
            ExportErrorView::Core(e) => "收藏夹导出失败: "@ + e.text(),
            ExportErrorView::Context(m) => "执行业务流程失败: "@ + m,
        }
    }

    /// The failure with `message` put before it.
    pub open spec fn context(self, message: Seq<char>) -> ExportErrorView {
        match self {
            ExportErrorView::Core(e) => ExportErrorView::Context(message + ": "@ + e.text()),
            ExportErrorView::Context(m) => ExportErrorView::Context(message + ": "@ + m),
        }
    }
}

impl View for ExportError {
    type V = ExportErrorView;

    open spec fn view(&self) -> ExportErrorView {
        match self {
            ExportError::Core(e) => ExportErrorView::Core(e@),
            ExportError::Context(m) => ExportErrorView::Context(m@),
        }
    }
}

impl ExportError {
    /// The failure with `message` put before it, after a colon.
    pub fn context(self, message: &str) -> (r: ExportError)
        ensures
            r@ == self@.context(message@),
    {
        let mut text = message.to_owned();
        text.append(": ");
        match self {
            ExportError::Core(err) => {
                let inner = err.to_string();
                text.append(inner.as_str());
            },
            ExportError::Context(existing) => {
                text.append(existing.as_str());
            },
        }
        ExportError::Context(text)
    }

    /// The line that the failure shows to a reader.
    pub fn to_string(&self) -> (r: String)
        ensures
            r@ == self@.text(),
    {
        match self {
            ExportError::Core(e) => {
                let inner = e.to_string();
                join2("收藏夹导出失败: ", inner.as_str())
            },
            ExportError::Context(m) => join2("执行业务流程失败: ", m.as_str()),
        }
    }
}

} // verus!
