use favlist_core::client::{
    is_success, request, ApiReply, BiliFavClient, ClientOptions,
};
use favlist_core::errors::FavlistError;
use favlist_core::export::{
    build_video_entry, collect_new_entries, ensure_csv_exists, export_favlist, ExportOptions,
    ExportProgress,
};
use favlist_core::models::{
    ApiResponse, FolderInfo, FolderInfoPayload, ResourceListPayload, VideoItem,
};

fn client(base_url: Option<&str>) -> BiliFavClient {
    let mut options = ClientOptions::default();
    options.base_url = base_url.map(|s| s.to_string());
    BiliFavClient::new(options).unwrap()
}

fn page(ids: &[&str], has_more: bool) -> ResourceListPayload {
    ResourceListPayload {
        medias: ids
            .iter()
            .map(|id| VideoItem {
                bv_id: String::new(),
                bvid: id.to_string(),
                id: None,
                title: format!(" title of {} ", id),
            })
            .collect(),
        has_more,
    }
}

fn parsed<T>(data: T) -> ApiReply<T> {
    ApiReply::Parsed(ApiResponse { code: 0, message: None, data: Some(data) })
}

fn pairs(params: &[(String, String)]) -> Vec<(&str, &str)> {
    params.iter().map(|(k, v)| (k.as_str(), v.as_str())).collect()
}

#[test]
fn default_options_are_ten_seconds_and_nothing_else() {
    let options = ClientOptions::default();
    assert_eq!(options.timeout_secs, 10);
    assert!(options.cookie.is_none());
    assert!(options.extra_headers.is_empty());
    assert!(options.base_url.is_none());
    let export = ExportOptions::default();
    assert_eq!(export.encoding, "utf-8");
    assert_eq!(export.page_size, 40);
    assert_eq!(export.timeout_secs, 10);
    assert!(export.timestamp.is_none());
    let made = export.client_options();
    assert_eq!(made.timeout_secs, 10);
    assert!(made.cookie.is_none());
}

#[test]
fn requests_name_the_folder_and_the_page() {
    let usual = client(None);
    let info = usual.folder_info_request(3670113371);
    assert_eq!(info.url, "https://api.bilibili.com/x/v3/fav/folder/info");
    assert_eq!(pairs(&info.params), vec![("media_id", "3670113371")]);
    let list = client(Some("http://127.0.0.1:8080")).list_request(3670113371, 2, 40);
    assert_eq!(list.url, "http://127.0.0.1:8080/x/v3/fav/resource/list");
    assert_eq!(
        pairs(&list.params),
        vec![("media_id", "3670113371"), ("pn", "2"), ("ps", "40"), ("platform", "web")]
    );
}

#[test]
fn headers_come_in_their_order() {
    let mut options = ClientOptions::default();
    options.cookie = Some("SESSDATA=abc".to_string());
    options.extra_headers = vec![("x-a".to_string(), "1".to_string())];
    let made = BiliFavClient::new(options).unwrap();
    let headers = made.headers();
    let names: Vec<&str> = headers.iter().map(|(k, _)| k.as_str()).collect();
    assert_eq!(names, vec!["user-agent", "referer", "cookie", "x-a"]);
    assert_eq!(headers[1].1, "https://www.bilibili.com/");
    assert_eq!(headers[2].1, "SESSDATA=abc");
    assert_eq!(headers[3].1, "1");
    assert!(headers[0].1.starts_with("Mozilla/5.0"));
    assert_eq!(made.options().timeout_secs, 10);
    assert_eq!(client(None).headers().len(), 2);
}

fn client_error(options: ClientOptions) -> String {
    match BiliFavClient::new(options) {
        Err(FavlistError::InvalidUrl(m)) => m,
        other => panic!("{:?}", other.map(|_| ())),
    }
}

#[test]
fn headers_that_http_refuses_fail_the_client() {
    let mut options = ClientOptions::default();
    options.cookie = Some("bad\ncookie".to_string());
    options.extra_headers = vec![("bad name".to_string(), "1".to_string())];
    assert!(client_error(options).starts_with("Cookie格式无效: "));
    let mut options = ClientOptions::default();
    options.extra_headers =
        vec![("x-ok".to_string(), "fine".to_string()), ("bad name".to_string(), "1".to_string())];
    assert!(client_error(options).starts_with("Header名无效: "));
    let mut options = ClientOptions::default();
    options.extra_headers = vec![("x-ok".to_string(), "bad\u{7f}".to_string())];
    assert_eq!(client_error(options), "Header值无效: failed to parse header value");
    let mut options = ClientOptions::default();
    options.cookie = Some("a\u{1f}b".to_string());
    assert_eq!(client_error(options), "Cookie格式无效: failed to parse header value");
    let mut options = ClientOptions::default();
    options.cookie = Some("名\t= 值~\u{80}".to_string());
    options.extra_headers = vec![("x-ok".to_string(), String::new())];
    assert!(BiliFavClient::new(options).is_ok());
}

#[test]
fn statuses_from_200_to_299_are_successes() {
    assert!(is_success(200));
    assert!(is_success(204));
    assert!(is_success(299));
    assert!(!is_success(199));
    assert!(!is_success(300));
    assert!(!is_success(404));
}

#[test]
fn replies_are_read_by_their_kind() {
    assert_eq!(request(parsed(5u8)).unwrap(), 5);
    match request::<u8>(ApiReply::Failed("timed out".to_string())) {
        Err(FavlistError::Request(m)) => assert_eq!(m, "timed out"),
        other => panic!("{:?}", other),
    }
    match request::<u8>(ApiReply::Status("404 Not Found".to_string())) {
        Err(FavlistError::Other(m)) => assert_eq!(m, "HTTP请求失败: 404 Not Found"),
        other => panic!("{:?}", other),
    }
    match request::<u8>(ApiReply::Invalid("expected value".to_string())) {
        Err(FavlistError::InvalidJson(m)) => assert_eq!(m, "expected value"),
        other => panic!("{:?}", other),
    }
    let refused = ApiResponse { code: -101, message: Some("账号未登录".to_string()), data: Some(1u8) };
    match request(ApiReply::Parsed(refused)) {
        Err(FavlistError::Api { code, message }) => {
            assert_eq!(code, -101);
            assert_eq!(message, "账号未登录");
        }
        other => panic!("{:?}", other),
    }
    let silent = ApiResponse::<u8> { code: 7, message: None, data: None };
    match request(ApiReply::Parsed(silent)) {
        Err(FavlistError::Api { code, message }) => {
            assert_eq!(code, 7);
            assert_eq!(message, "unknown");
        }
        other => panic!("{:?}", other),
    }
    let empty = ApiResponse::<u8> { code: 0, message: None, data: None };
    match request(ApiReply::Parsed(empty)) {
        Err(FavlistError::InvalidJson(m)) => assert_eq!(m, "响应缺少data字段"),
        other => panic!("{:?}", other),
    }
}

#[test]
fn folder_info_takes_the_asked_id_where_none_is_sent() {
    let payload =
        FolderInfoPayload { id: None, fid: Some(1), mid: None, title: None, media_count: 2 };
    let info = client(None).get_folder_info(99, parsed(payload)).unwrap();
    assert_eq!(info.media_id, 99);
    assert_eq!(info.fid, 1);
    assert_eq!(info.media_count, 2);
    assert!(client(None).get_folder_info(99, ApiReply::Failed("x".to_string())).is_err());
}

#[test]
fn listing_goes_on_while_there_is_more() {
    let client = client(None);
    let mut cursor = client.list_videos(5, 20);
    let first = cursor.next_request(&client).unwrap();
    assert_eq!(pairs(&first.params)[1], ("pn", "1"));
    assert_eq!(pairs(&first.params)[2], ("ps", "20"));
    assert_eq!(cursor.accept(parsed(page(&["a"], true))).unwrap(), true);
    let second = cursor.next_request(&client).unwrap();
    assert_eq!(pairs(&second.params)[1], ("pn", "2"));
    assert_eq!(cursor.accept(parsed(page(&["b"], false))).unwrap(), false);
    assert!(cursor.finished);
    assert!(cursor.next_request(&client).is_none());
    assert_eq!(cursor.pages.len(), 2);
    assert_eq!(cursor.accept(parsed(page(&["c"], true))).unwrap(), false);
    assert_eq!(cursor.pages.len(), 2);
}

#[test]
fn listing_ends_on_a_failure() {
    let client = client(None);
    let mut cursor = client.list_videos(5, 20);
    assert!(cursor.accept(parsed(page(&["a"], true))).unwrap());
    assert!(matches!(
        cursor.accept(ApiReply::Status("500 Internal Server Error".to_string())),
        Err(FavlistError::Other(_))
    ));
    assert!(cursor.finished);
    assert_eq!(cursor.pages.len(), 1);
    let mut last = client.list_videos(5, 20);
    last.page = u32::MAX;
    assert!(matches!(last.accept(parsed(page(&[], true))), Err(FavlistError::Other(_))));
    assert!(last.finished);
}

fn folder(media_count: i64) -> FolderInfo {
    FolderInfo { media_id: 1, fid: 2, mid: 3, title: "夹".to_string(), media_count }
}

fn options(encoding: &str, timestamp: Option<&str>) -> ExportOptions {
    let mut options = ExportOptions::default();
    options.fav_url = "https://space.bilibili.com/234561771/favlist?fid=1".to_string();
    options.csv_path = "out/favlist.csv".to_string();
    options.encoding = encoding.to_string();
    options.timestamp = timestamp.map(|s| s.to_string());
    options
}

#[test]
fn entry_is_built_from_a_video() {
    let item = VideoItem {
        bv_id: " BV1 ".to_string(),
        bvid: "BV2".to_string(),
        id: Some(9),
        title: "  t  ".to_string(),
    };
    let entry = build_video_entry(&item, "夹", "ts").unwrap();
    assert_eq!(entry.bv_id, "BV1");
    assert_eq!(entry.title, "t");
    assert_eq!(entry.fav_title, "夹");
    assert_eq!(entry.timestamp, "ts");
    assert_eq!(entry.aid, Some(9));
    let nameless =
        VideoItem { bv_id: String::new(), bvid: String::new(), id: None, title: "t".to_string() };
    assert!(build_video_entry(&nameless, "夹", "ts").is_none());
}

#[test]
fn first_seen_wins_within_an_export() {
    let pages = vec![page(&["a", "b", "a"], true), page(&["", "c", "b"], false)];
    let calls = std::cell::RefCell::new(Vec::new());
    let note = |p: ExportProgress| calls.borrow_mut().push((p.current, p.total));
    let out = export_favlist(
        options("utf-8", Some("ts")),
        folder(6),
        pages,
        Some(b"bv_id\nb\n"),
        "now".to_string(),
        &note,
    )
    .unwrap();
    let ids: Vec<&str> = out.result.new_entries.iter().map(|e| e.bv_id.as_str()).collect();
    assert_eq!(ids, vec!["a", "c"]);
    assert_eq!(out.result.new_entries[0].title, "title of a");
    assert_eq!(out.result.new_entries[0].fav_title, "夹");
    assert_eq!(out.result.new_entries[0].timestamp, "ts");
    assert_eq!(out.result.timestamp, "ts");
    assert_eq!(out.result.processed_count, 6);
    assert_eq!(out.result.total_count, Some(6));
    assert_eq!(out.result.csv_path, "out/favlist.csv");
    assert!(!out.ledger_is_new);
    assert_eq!(String::from_utf8(out.ledger_append).unwrap(), "ts,a,title of a,夹\nts,c,title of c,夹\n");
    let seen: Vec<(u64, Option<u64>)> = calls.borrow().clone();
    assert_eq!(seen.len(), 7);
    assert_eq!(seen[0], (0, Some(6)));
    assert_eq!(seen[6], (6, Some(6)));
}

#[test]
fn export_without_a_fixed_moment_takes_the_given_one() {
    let quiet = |_p: ExportProgress| {};
    let out = export_favlist(
        options("utf-8", None),
        folder(0),
        vec![page(&["a"], false)],
        None,
        "2030-01-01T00-00-00".to_string(),
        &quiet,
    )
    .unwrap();
    assert_eq!(out.result.timestamp, "2030-01-01T00-00-00");
    assert_eq!(out.result.new_entries[0].timestamp, "2030-01-01T00-00-00");
    assert_eq!(out.result.total_count, None);
    assert!(out.ledger_is_new);
    assert_eq!(
        String::from_utf8(out.ledger_append).unwrap(),
        "timestamp,bv_id,title,fav_name\n2030-01-01T00-00-00,a,title of a,夹\n"
    );
}

#[test]
fn export_of_nothing_new_still_makes_the_ledger() {
    let quiet = |_p: ExportProgress| {};
    let out =
        export_favlist(options("gbk", Some("ts")), folder(0), Vec::new(), None, String::new(), &quiet)
            .unwrap();
    assert!(out.result.new_entries.is_empty());
    assert_eq!(out.result.processed_count, 0);
    assert_eq!(out.ledger_append, b"timestamp,bv_id,title,fav_name\n".to_vec());
    assert_eq!(ensure_csv_exists("gbk", false).unwrap(), Vec::<u8>::new());
    assert!(ensure_csv_exists("nope", false).is_err());
}

#[test]
fn export_fails_with_the_ledger_or_the_encoding() {
    let quiet = |_p: ExportProgress| {};
    let run = |encoding: &str, ledger: Option<&[u8]>| {
        export_favlist(
            options(encoding, Some("ts")),
            folder(1),
            vec![page(&["测试"], false)],
            ledger,
            String::new(),
            &quiet,
        )
        .map(|out| out.result.new_entries.len())
        .map_err(|e| e.to_string())
    };
    assert_eq!(run("utf-8", None), Ok(1));
    assert_eq!(run("nope", None), Err("收藏夹导出失败: 编码转换失败: 不支持的编码: nope".to_string()));
    assert_eq!(
        run("nope", Some(b"bv_id\n")),
        Err("收藏夹导出失败: 编码转换失败: 不支持的编码: nope".to_string())
    );
    assert_eq!(
        run("windows-1252", None),
        Err("收藏夹导出失败: 编码转换失败: 编码转换失败".to_string())
    );
    assert!(run("utf-8", Some(b"bv_id,title\na\n")).unwrap_err().starts_with("收藏夹导出失败: CSV解析失败: "));
}

#[test]
fn collecting_adds_what_it_keeps_to_the_seen() {
    let quiet = |_p: ExportProgress| {};
    let mut seen = favlist_core::csv_utils::load_existing_bv_ids(Some(b"bv_id\nz\n"), "utf-8").unwrap();
    let (entries, processed) =
        collect_new_entries(&vec![page(&["a", "z", "a"], false)], "夹", "ts", None, &mut seen, &quiet);
    assert_eq!(entries.len(), 1);
    assert_eq!(processed, 3);
    assert!(seen.contains("a"));
    assert!(seen.contains("z"));
    assert_eq!(seen.len(), 2);
}
