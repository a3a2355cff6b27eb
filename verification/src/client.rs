//! The requests that read a favorites folder from the listing service, and
//! the reading of its answers. The caller sends the requests.

use vstd::prelude::*;
use crate::errors::{FavlistError, FavlistErrorView, join2};
use crate::models::{ApiResponse, FolderInfo, FolderInfoPayload, ResourceListPayload};
use crate::text::{decimal_digits, decimal_text, push_decimal, push_signed_decimal};

verus! {

/// The address at which the listing service describes a folder.
pub const INFO_ENDPOINT: &'static str = "https://api.bilibili.com/x/v3/fav/folder/info";

/// The address at which the listing service lists a folder's videos.
pub const LIST_ENDPOINT: &'static str = "https://api.bilibili.com/x/v3/fav/resource/list";

/// The headers that every request carries.
pub const DEFAULT_HEADERS: [(&'static str, &'static str); 2] = [
    (
        "user-agent",
        "Mozilla/5.0 (Windows NT 10.0; Win64; x64) \\nAppleWebKit/537.36 (KHTML, like Gecko) \\nChrome/118.0 Safari/537.36",
    ),
    ("referer", "https://www.bilibili.com/"),
];

/// The address of the listing service.
pub open spec fn default_base_url() -> Seq<char> {
    "https://api.bilibili.com"@
}

/// The path under which the service describes a folder.
pub open spec fn info_path() -> Seq<char> {
    "/x/v3/fav/folder/info"@
}

/// The path under which the service lists a folder's videos.
pub open spec fn list_path() -> Seq<char> {
    "/x/v3/fav/resource/list"@
}

/// How to reach the listing service.
#[derive(Debug, Clone)]
pub struct ClientOptions {
    /// The time allowed to a request, in seconds.
    pub timeout_secs: u64,
    pub cookie: Option<String>,
    /// Headers to send besides the fixed ones, in the order in which they
    /// are set.
    pub extra_headers: Vec<(String, String)>,
    /// The address of the service, where it is not the usual one.
    pub base_url: Option<String>,
}

impl Default for ClientOptions {
    fn default() -> (options: ClientOptions)
        ensures
            options.timeout_secs == 10,
            options.cookie is None,
            options.extra_headers@.len() == 0,
            options.base_url is None,
    {
        ClientOptions { timeout_secs: 10, cookie: None, extra_headers: Vec::new(), base_url: None }
    }
}

/// A GET request: the address, and the parameters of its query in order.
#[derive(Debug)]
pub struct ApiRequest {
    pub url: String,
    pub params: Vec<(String, String)>,
}

/// What came of a request.
#[derive(Debug)]
pub enum ApiReply<T> {
    /// The request was not answered, or the answer could not be read.
    Failed(String),
    /// The answer has a status that is no success; its text is held.
    Status(String),
    /// The answer is not the JSON that was expected; the reason is held.
    Invalid(String),
    /// The answer, read.
    Parsed(ApiResponse<T>),
}

/// Whether the `http` crate takes `c` in a header's value: the tab, and
/// every character from the space on but U+007F.
pub open spec fn is_header_value_char(c: char) -> bool {
    let u = c as u32;
    u == 0x09 || (u >= 0x20 && u != 0x7F)
}

/// What the `http` crate objects to in a header's value, if anything: it
/// refuses a value that holds a character which it does not take, always
/// in the same words.
pub open spec fn header_value_error(value: Seq<char>) -> Option<Seq<char>> {
    if forall|i: int| 0 <= i < value.len() ==> is_header_value_char(#[trigger] value[i]) {
        None
    } else {
        Some("failed to parse header value"@)
    }
}

/// What the `http` crate objects to in a header's name, if anything.
pub uninterp spec fn header_name_error(name: Seq<char>) -> Option<Seq<char>>;

/// `HeaderValue::from_str` of the `http` crate, as `reqwest` hands it on:
/// the text of its error, where it refuses `value`. It tests each byte of
/// the value, and takes the tab and every byte from 32 on but 127; so it
/// takes every character beyond ASCII, which is more than its description
/// names.
#[verifier::external_body]
fn check_header_value(value: &str) -> (r: Option<String>)
    ensures
        match r {
            Some(message) => header_value_error(value@) == Some(message@),
            None => header_value_error(value@) is None,
        },
{
    reqwest::header::HeaderValue::from_str(value).err().map(|e| e.to_string())
}

/// `HeaderName::from_bytes` of the `http` crate, as `reqwest` hands it on:
/// the text of its error, where it refuses `name`.
#[verifier::external_body]
fn check_header_name(name: &str) -> (r: Option<String>)
    ensures
        match r {
            Some(message) => header_name_error(name@) == Some(message@),
            None => header_name_error(name@) is None,
        },
{
    reqwest::header::HeaderName::from_bytes(name.as_bytes()).err().map(|e| e.to_string())
}

/// The first objection to the headers `headers[from..]`: to a name before
/// its value, to an earlier header before a later one.
pub open spec fn headers_error(headers: Seq<(String, String)>, from: int) -> Option<Seq<char>>
    decreases headers.len() - from,
{
    if from < 0 || from >= headers.len() {
        None
    } else {
        match header_name_error(headers[from].0@) {
            Some(m) => Some("Header名无效: "@ + m),
            None => match header_value_error(headers[from].1@) {
                Some(m) => Some("Header值无效: "@ + m),
                None => headers_error(headers, from + 1),
            },
        }
    }
}

/// The first objection to the options: to the cookie before the headers.
pub open spec fn options_error(options: ClientOptions) -> Option<Seq<char>> {
    match options.cookie {
        Some(cookie) => match header_value_error(cookie@) {
            Some(m) => Some("Cookie格式无效: "@ + m),
            None => headers_error(options.extra_headers@, 0),
        },
        None => headers_error(options.extra_headers@, 0),
    }
}

/// Whether a status of this number is a success.
pub fn is_success(status: u16) -> (b: bool)
    ensures
        b == (200 <= status <= 299),
{
    200 <= status && status <= 299
}

/// What an answer holds, or the failure that it stands for: a request that
/// failed, a status that is no success, a body that is not JSON, a code
/// other than 0 with the service's message (`unknown` without one), or an
/// answer without data.
pub open spec fn reply_data<T>(reply: ApiReply<T>) -> Result<T, FavlistErrorView> {
    match reply {
        ApiReply::Failed(m) => Err(FavlistErrorView::Request(m@)),
        ApiReply::Status(text) => Err(FavlistErrorView::Other("HTTP请求失败: "@ + text@)),
        ApiReply::Invalid(m) => Err(FavlistErrorView::InvalidJson(m@)),
        ApiReply::Parsed(response) => if response.code != 0 {
            Err(
                FavlistErrorView::Api {
                    code: response.code,
                    message: match response.message {
                        Some(m) => m@,
                        None => "unknown"@,
                    },
                },
            )
        } else {
            match response.data {
                Some(data) => Ok(data),
                None => Err(FavlistErrorView::InvalidJson("响应缺少data字段"@)),
            }
        },
    }
}

/// What an answer holds, or the failure that it stands for.
pub fn request<T>(reply: ApiReply<T>) -> (r: Result<T, FavlistError>)
    ensures
        match r {
            Ok(data) => reply_data(reply) == Ok::<T, FavlistErrorView>(data),
            Err(e) => reply_data(reply) == Err::<T, FavlistErrorView>(e@),
        },
{
    match reply {
        ApiReply::Failed(m) => Err(FavlistError::Request(m)),
        ApiReply::Status(text) => Err(FavlistError::Other(join2("HTTP请求失败: ", text.as_str()))),
        ApiReply::Invalid(m) => Err(FavlistError::InvalidJson(m)),
        ApiReply::Parsed(response) => {
            if response.code != 0 {
                let message = match response.message {
                    Some(m) => m,
                    None => "unknown".to_owned(),
                };
                return Err(FavlistError::Api { code: response.code, message });
            }
            match response.data {
                Some(data) => Ok(data),
                None => Err(FavlistError::InvalidJson("响应缺少data字段".to_owned())),
            }
        },
    }
}

/// A reader of one favorites folder service.
#[derive(Debug)]
pub struct BiliFavClient {
    options: ClientOptions,
}

impl BiliFavClient {
    /// The options that the client was made with.
    pub closed spec fn spec_options(&self) -> ClientOptions {
        self.options
    }

    /// A client with these options, where the `http` crate accepts the
    /// cookie and each of the extra headers.
    pub fn new(options: ClientOptions) -> (r: Result<BiliFavClient, FavlistError>)
        ensures
            match r {
                Ok(client) => options_error(options) is None && client.spec_options() == options,
                Err(e) => options_error(options) matches Some(m) && e@
                    == FavlistErrorView::InvalidUrl(m),
            },
    {
        match &options.cookie {
            Some(cookie) => {
                match check_header_value(cookie.as_str()) {
                    Some(m) => {
                        return Err(
                            FavlistError::InvalidUrl(join2("Cookie格式无效: ", m.as_str())),
                        );
                    },
                    None => {},
                }
            },
            None => {},
        }
        let mut i: usize = 0;
        while i < options.extra_headers.len()
            invariant
                i <= options.extra_headers@.len(),
                options_error(options) == headers_error(options.extra_headers@, 0),
                headers_error(options.extra_headers@, 0) == headers_error(
                    options.extra_headers@,
                    i as int,
                ),
            decreases options.extra_headers@.len() - i,
        {
            match check_header_name(options.extra_headers[i].0.as_str()) {
                Some(m) => {
                    return Err(FavlistError::InvalidUrl(join2("Header名无效: ", m.as_str())));
                },
                None => {},
            }
            match check_header_value(options.extra_headers[i].1.as_str()) {
                Some(m) => {
                    return Err(FavlistError::InvalidUrl(join2("Header值无效: ", m.as_str())));
                },
                None => {},
            }
            i += 1;
        }
        Ok(BiliFavClient { options })
    }

    /// The options that the client was made with.
    pub fn options(&self) -> (options: &ClientOptions)
        ensures
            *options == self.spec_options(),
    {
        &self.options
    }

    /// The address of the service.
    pub open spec fn base_url(&self) -> Seq<char> {
        match self.spec_options().base_url {
            Some(base) => base@,
            None => default_base_url(),
        }
    }

    /// The address of the service with `path` after it.
    fn endpoint(&self, path: &str) -> (url: String)
        ensures
            url@ == self.base_url() + path@,
    {
        match &self.options.base_url {
            Some(base) => join2(base.as_str(), path),
            None => join2("https://api.bilibili.com", path),
        }
    }

    /// The headers that each request carries, in the order in which they
    /// are set, a later one replacing an earlier one of its name: the two
    /// fixed ones, the cookie where there is one, then the extra ones.
    pub fn headers(&self) -> (headers: Vec<(String, String)>)
        ensures
            headers@.len() == 2 + (if self.spec_options().cookie is Some {
                1nat
            } else {
                0nat
            }) + self.spec_options().extra_headers@.len(),
            headers@[0].0@ == "user-agent"@,
            headers@[0].1@
                == "Mozilla/5.0 (Windows NT 10.0; Win64; x64) \\nAppleWebKit/537.36 (KHTML, like Gecko) \\nChrome/118.0 Safari/537.36"@,
            headers@[1].0@ == "referer"@,
            headers@[1].1@ == "https://www.bilibili.com/"@,
            self.spec_options().cookie matches Some(cookie) ==> headers@[2].0@ == "cookie"@
                && headers@[2].1@ == cookie@,
            forall|k: int|
                0 <= k < self.spec_options().extra_headers@.len() ==> #[trigger] headers@[headers@.len()
                    - self.spec_options().extra_headers@.len() + k] == self.spec_options().extra_headers@[k],
    {
        let mut headers: Vec<(String, String)> = Vec::new();
        headers.push(
            (
                "user-agent".to_owned(),
                "Mozilla/5.0 (Windows NT 10.0; Win64; x64) \\nAppleWebKit/537.36 (KHTML, like Gecko) \\nChrome/118.0 Safari/537.36".to_owned(),
            ),
        );
        headers.push(("referer".to_owned(), "https://www.bilibili.com/".to_owned()));
        match &self.options.cookie {
            Some(cookie) => {
                headers.push(("cookie".to_owned(), cookie.clone()));
            },
            None => {},
        }
        let ghost fixed = headers@.len();
        let mut i: usize = 0;
        while i < self.options.extra_headers.len()
            invariant
                i <= self.options.extra_headers@.len(),
                headers@.len() == fixed + i,
                fixed >= 2,
                self.options.cookie is Some ==> fixed == 3,
                headers@[0].0@ == "user-agent"@,
                headers@[0].1@
                    == "Mozilla/5.0 (Windows NT 10.0; Win64; x64) \\nAppleWebKit/537.36 (KHTML, like Gecko) \\nChrome/118.0 Safari/537.36"@,
                headers@[1].0@ == "referer"@,
                headers@[1].1@ == "https://www.bilibili.com/"@,
                self.options.cookie matches Some(cookie) ==> headers@[2].0@ == "cookie"@
                    && headers@[2].1@ == cookie@,
                forall|k: int|
                    0 <= k < i ==> #[trigger] headers@[fixed + k] == self.options.extra_headers@[k],
            decreases self.options.extra_headers@.len() - i,
        {
            let name = self.options.extra_headers[i].0.clone();
            let value = self.options.extra_headers[i].1.clone();
            headers.push((name, value));
            i += 1;
        }
        headers
    }

    /// The request that asks for the description of folder `media_id`.
    pub fn folder_info_request(&self, media_id: i64) -> (request: ApiRequest)
        ensures
            request.url@ == self.base_url() + info_path(),
            pair_views(request.params@) == seq![("media_id"@, decimal_text(media_id as int))],
    {
        let mut id = String::new();
        push_signed_decimal(&mut id, media_id);
        let mut params: Vec<(String, String)> = Vec::new();
        params.push(("media_id".to_owned(), id));
        proof {
            assert(Seq::<char>::empty() + decimal_text(media_id as int) =~= decimal_text(
                media_id as int,
            ));
            assert(pair_views(params@) =~= seq![("media_id"@, decimal_text(media_id as int))]);
        }
        ApiRequest { url: self.endpoint("/x/v3/fav/folder/info"), params }
    }

    /// The request that asks for page `page` of folder `media_id`, with
    /// `page_size` videos to the page.
    pub fn list_request(&self, media_id: i64, page: u32, page_size: u32) -> (request: ApiRequest)
        ensures
            request.url@ == self.base_url() + list_path(),
            pair_views(request.params@) == seq![
                ("media_id"@, decimal_text(media_id as int)),
                ("pn"@, decimal_digits(page as nat)),
                ("ps"@, decimal_digits(page_size as nat)),
                ("platform"@, "web"@),
            ],
    {
        let mut id = String::new();
        push_signed_decimal(&mut id, media_id);
        let mut pn = String::new();
        push_decimal(&mut pn, page as u64);
        let mut ps = String::new();
        push_decimal(&mut ps, page_size as u64);
        let mut params: Vec<(String, String)> = Vec::new();
        params.push(("media_id".to_owned(), id));
        params.push(("pn".to_owned(), pn));
        params.push(("ps".to_owned(), ps));
        params.push(("platform".to_owned(), "web".to_owned()));
        proof {
            assert(Seq::<char>::empty() + decimal_text(media_id as int) =~= decimal_text(
                media_id as int,
            ));
            assert(Seq::<char>::empty() + decimal_digits(page as nat) =~= decimal_digits(
                page as nat,
            ));
            assert(Seq::<char>::empty() + decimal_digits(page_size as nat) =~= decimal_digits(
                page_size as nat,
            ));
            assert(pair_views(params@) =~= seq![
                ("media_id"@, decimal_text(media_id as int)),
                ("pn"@, decimal_digits(page as nat)),
                ("ps"@, decimal_digits(page_size as nat)),
                ("platform"@, "web"@),
            ]);
        }
        ApiRequest { url: self.endpoint("/x/v3/fav/resource/list"), params }
    }

    /// The folder that the answer to `folder_info_request` describes.
    pub fn get_folder_info(&self, media_id: i64, reply: ApiReply<FolderInfoPayload>) -> (r: Result<
        FolderInfo,
        FavlistError,
    >)
        ensures
            match r {
                Ok(info) => reply_data(reply) matches Ok(payload) && info@ == payload.folder_info(
                    media_id,
                ),
                Err(e) => reply_data(reply) == Err::<FolderInfoPayload, FavlistErrorView>(e@),
            },
    {
        match request(reply) {
            Ok(payload) => Ok(payload.into_folder_info(media_id)),
            Err(e) => Err(e),
        }
    }

    /// The start of a listing of folder `media_id`, `page_size` videos to
    /// the page: nothing read, page 1 to ask for.
    pub fn list_videos(&self, media_id: i64, page_size: u32) -> (cursor: PageCursor)
        ensures
            cursor.media_id == media_id,
            cursor.page_size == page_size,
            cursor.page == 1,
            cursor.pages@.len() == 0,
            !cursor.finished,
    {
        PageCursor { media_id, page_size, page: 1, pages: Vec::new(), finished: false }
    }
}

/// The texts of a list of pairs.
pub open spec fn pair_views(pairs: Seq<(String, String)>) -> Seq<(Seq<char>, Seq<char>)> {
    pairs.map_values(|p: (String, String)| (p.0@, p.1@))
}

/// A listing under way: the pages read so far, and the page to ask for.
#[derive(Debug)]
pub struct PageCursor {
    pub media_id: i64,
    pub page_size: u32,
    /// The number of the page to ask for next, from 1.
    pub page: u32,
    pub pages: Vec<ResourceListPayload>,
    /// Whether the last page has been read.
    pub finished: bool,
}

impl PageCursor {
    /// The request for the next page, while the listing is under way.
    pub fn next_request(&self, client: &BiliFavClient) -> (r: Option<ApiRequest>)
        ensures
            self.finished ==> r is None,
            !self.finished ==> (r matches Some(request) && request.url@ == client.base_url()
                + list_path() && pair_views(request.params@) == seq![
                ("media_id"@, decimal_text(self.media_id as int)),
                ("pn"@, decimal_digits(self.page as nat)),
                ("ps"@, decimal_digits(self.page_size as nat)),
                ("platform"@, "web"@),
            ]),
    {
        if self.finished {
            None
        } else {
            Some(client.list_request(self.media_id, self.page, self.page_size))
        }
    }

    /// Takes in the answer to the request for the next page. A failure ends
    /// the listing and is handed on. A page is kept; where it says that more
    /// follow, the next page is to ask for (`Ok(true)`), else the listing is
    /// complete (`Ok(false)`). The page after the last that can be numbered
    /// is a failure. A listing that has ended takes nothing in.
    pub fn accept(&mut self, reply: ApiReply<ResourceListPayload>) -> (r: Result<bool, FavlistError>)
        ensures
            final(self).media_id == old(self).media_id,
            final(self).page_size == old(self).page_size,
            old(self).finished ==> r == Ok::<bool, FavlistError>(false) && *final(self) == *old(self),
            !old(self).finished ==> (reply_data(reply) matches Err(e) ==> {
                &&& (r matches Err(f) && f@ == e)
                &&& final(self).finished
                &&& final(self).pages == old(self).pages
                &&& final(self).page == old(self).page
            }),
            !old(self).finished ==> (reply_data(reply) matches Ok(payload) ==> {
                &&& final(self).pages@ == old(self).pages@.push(payload)
                &&& !payload.has_more ==> {
                    &&& r == Ok::<bool, FavlistError>(false)
                    &&& final(self).finished
                    &&& final(self).page == old(self).page
                }
                &&& payload.has_more && old(self).page == u32::MAX ==> {
                    &&& (r matches Err(f) && f@ == FavlistErrorView::Other("分页页码超出范围"@))
                    &&& final(self).finished
                    &&& final(self).page == old(self).page
                }
                &&& payload.has_more && old(self).page < u32::MAX ==> {
                    &&& r == Ok::<bool, FavlistError>(true)
                    &&& !final(self).finished
                    &&& final(self).page == old(self).page + 1
                }
            }),
    {
        if self.finished {
            return Ok(false);
        }
        match request(reply) {
            Err(e) => {
                self.finished = true;
                Err(e)
            },
            Ok(payload) => {
                let has_more = payload.has_more;
                self.pages.push(payload);
                if !has_more {
                    self.finished = true;
                    Ok(false)
                } else if self.page == u32::MAX {
                    self.finished = true;
                    Err(FavlistError::Other("分页页码超出范围".to_owned()))
                } else {
                    self.page = self.page + 1;
                    Ok(true)
                }
            },
        }
    }
}

} // verus!
