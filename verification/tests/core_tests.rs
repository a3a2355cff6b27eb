use favlist_core::client::{ApiReply, ApiRequest};
use favlist_core::models::{ApiResponse, FolderInfoPayload, ResourceListPayload, VideoItem};
use favlist_core::{
    load_existing_bv_ids, parse_media_id, read_csv_rows, write_entries, ExportEvent,
    ExportOptions, ExportProgress, ExportResult, ExportSession, ExportStep, VideoEntry,
};

#[test]
fn parse_media_id_success() {
    let url = "https://space.bilibili.com/234561771/favlist?fid=3670113371";
    let media_id = parse_media_id(url).expect("media id");
    assert_eq!(media_id, 3670113371);
}

#[test]
fn parse_media_id_invalid() {
    let url = "https://space.bilibili.com/234561771/favlist";
    let err = parse_media_id(url).unwrap_err();
    assert!(err.to_string().contains("fid"));
}

#[test]
fn write_and_read_csv_with_gbk_encoding() {
    let entries = vec![VideoEntry {
        bv_id: "BV1xx41117xb".to_string(),
        title: "测试标题".to_string(),
        fav_title: "收藏夹".to_string(),
        timestamp: "2025-11-02T12-00-00".to_string(),
        aid: Some(12345),
    }];

    let file = write_entries("gbk", true, &entries).unwrap().bytes;

    let existing = load_existing_bv_ids(Some(&file), "gbk").unwrap();
    assert!(existing.contains("BV1xx41117xb"));

    let rows = read_csv_rows(Some(&file), "gbk").unwrap();
    assert_eq!(rows.len(), 1);
    assert_eq!(rows[0].get("title").unwrap(), "测试标题");
}

fn sample_options() -> ExportOptions {
    ExportOptions {
        fav_url: "https://space.bilibili.com/234561771/favlist?fid=3670113371".to_string(),
        csv_path: "favlist.csv".to_string(),
        encoding: "utf-8".to_string(),
        page_size: 40,
        cookie: None,
        timeout_secs: 10,
        timestamp: Some("2025-11-02T12-00-00".to_string()),
        extra_headers: Vec::new(),
        base_url: Some("http://127.0.0.1:5000".to_string()),
    }
}

fn answer<T>(data: T) -> ApiReply<T> {
    ApiReply::Parsed(ApiResponse { code: 0, message: None, data: Some(data) })
}

/// The service of the scenario: one folder, one page of two videos.
fn serve(request: &ApiRequest) -> (Option<FolderInfoPayload>, Option<ResourceListPayload>) {
    let params: Vec<(&str, &str)> =
        request.params.iter().map(|(k, v)| (k.as_str(), v.as_str())).collect();
    if request.url == "http://127.0.0.1:5000/x/v3/fav/folder/info" {
        assert_eq!(params, vec![("media_id", "3670113371")]);
        let info = FolderInfoPayload {
            id: Some(3670113371),
            fid: Some(111),
            mid: Some(222),
            title: Some("示例收藏夹".to_string()),
            media_count: 2,
        };
        (Some(info), None)
    } else {
        assert_eq!(request.url, "http://127.0.0.1:5000/x/v3/fav/resource/list");
        assert_eq!(
            params,
            vec![("media_id", "3670113371"), ("pn", "1"), ("ps", "40"), ("platform", "web")]
        );
        let video = |bvid: &str, title: &str, id: i64| VideoItem {
            bv_id: String::new(),
            bvid: bvid.to_string(),
            id: Some(id),
            title: title.to_string(),
        };
        let page = ResourceListPayload {
            medias: vec![
                video("BV1xx41117xb", "视频一", 987654),
                video("BV1yy41117xy", "视频二", 987655),
            ],
            has_more: false,
        };
        (None, Some(page))
    }
}

/// Runs an export against the service of the scenario and a ledger file
/// that holds `file`; gives the result and what the file holds afterwards.
fn run_export(options: ExportOptions, file: Option<Vec<u8>>) -> (ExportResult, Option<Vec<u8>>) {
    let quiet = |_progress: ExportProgress| {};
    let mut file = file;
    let mut requests = 0;
    let (mut session, mut step) =
        ExportSession::start(options, "2030-01-01T00-00-00".to_string());
    loop {
        let event = match step {
            ExportStep::FetchFolderInfo(request) => {
                requests += 1;
                ExportEvent::FolderInfo(answer(serve(&request).0.unwrap()))
            }
            ExportStep::FetchPage(request) => {
                requests += 1;
                ExportEvent::Page(answer(serve(&request).1.unwrap()))
            }
            ExportStep::ReadLedger => ExportEvent::Ledger(Ok(file.clone())),
            ExportStep::AppendLedger { create, bytes } => {
                assert_eq!(create, file.is_none());
                file.get_or_insert_with(Vec::new).extend_from_slice(&bytes);
                ExportEvent::Appended(Ok(()))
            }
            ExportStep::Done(result) => {
                assert_eq!(requests, 2);
                return (result.unwrap(), file);
            }
        };
        (session, step) = session.step(event, &quiet);
    }
}

#[test]
fn export_favlist_writes_new_entries() {
    let (result, file) = run_export(sample_options(), None);
    assert_eq!(result.new_entries.len(), 2);
    assert_eq!(result.folder_info.title, "示例收藏夹");

    let content = String::from_utf8(file.clone().unwrap()).unwrap();
    assert!(content.contains("BV1xx41117xb"));
    assert!(content.contains("视频一"));
    assert!(content.contains("BV1yy41117xy"));
    assert!(content.contains("视频二"));

    // Re-run export to ensure duplicates are skipped
    let (second, after) = run_export(sample_options(), file.clone());
    assert!(second.new_entries.is_empty());
    assert_eq!(after, file);
}
