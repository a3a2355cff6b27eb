use favlist_core::errors::{ExportError, FavlistError};
use favlist_core::models::{FolderInfoPayload, VideoItem};
use favlist_core::text::{
    char_is_white_space, chars_lt, chars_of, contains_char, parse_unsigned, push_decimal,
    push_signed_decimal, split_words, str_eq, string_of, trim, trim_end_of,
};
use favlist_core::timestamp::{current_timestamp, media_id_from_pairs, parse_media_id};

#[test]
fn trim_drops_unicode_white_space_at_both_ends() {
    assert_eq!(trim("  ab c \t\n"), "ab c");
    assert_eq!(trim("\u{3000}标题\u{a0}"), "标题");
    assert_eq!(trim(" \u{2028} "), "");
    assert_eq!(trim(""), "");
    assert_eq!(trim("x"), "x");
    // U+200B is no white space
    assert_eq!(trim("\u{200b}x"), "\u{200b}x");
}

#[test]
fn white_space_is_what_std_says() {
    for code in 0u32..0x3100 {
        if let Some(c) = char::from_u32(code) {
            assert_eq!(char_is_white_space(c), c.is_whitespace(), "U+{:04X}", code);
        }
    }
}

#[test]
fn string_of_takes_a_range_of_characters() {
    let chars = chars_of("héllo");
    assert_eq!(chars.len(), 5);
    assert_eq!(string_of(&chars, 1, 4), "éll");
    assert_eq!(string_of(&chars, 2, 2), "");
}

#[test]
fn strings_compare_by_character() {
    assert!(str_eq("收藏", "收藏"));
    assert!(!str_eq("a", "A"));
    assert!(!str_eq("a", "ab"));
    let lt = |a: &str, b: &str| chars_lt(&chars_of(a), &chars_of(b));
    assert!(lt("a", "b"));
    assert!(lt("", "a"));
    assert!(lt("ab", "b"));
    assert!(lt("BV1a", "BV1b"));
    assert!(!lt("b", "a"));
    assert!(!lt("a", "a"));
    assert!(!lt("a", ""));
    assert_eq!(lt("é", "z"), "é" < "z");
}

#[test]
fn numbers_are_written_in_base_ten() {
    let mut s = String::from("n=");
    push_decimal(&mut s, 0);
    assert_eq!(s, "n=0");
    let mut s = String::new();
    push_decimal(&mut s, 18446744073709551615);
    assert_eq!(s, "18446744073709551615");
    let mut s = String::new();
    push_signed_decimal(&mut s, -9223372036854775808);
    assert_eq!(s, "-9223372036854775808");
    let mut s = String::new();
    push_signed_decimal(&mut s, 1203);
    assert_eq!(s, "1203");
}

#[test]
fn unsigned_numbers_are_read_as_std_reads_them() {
    assert_eq!(parse_unsigned("40", 0xFFFF_FFFF), Some(40));
    assert_eq!(parse_unsigned("+7", 0xFFFF_FFFF), Some(7));
    assert_eq!(parse_unsigned("007", 0xFFFF_FFFF), Some(7));
    assert_eq!(parse_unsigned("4294967295", 0xFFFF_FFFF), Some(4294967295));
    assert_eq!(parse_unsigned("4294967296", 0xFFFF_FFFF), None);
    assert_eq!(parse_unsigned("", 0xFFFF_FFFF), None);
    assert_eq!(parse_unsigned("+", 0xFFFF_FFFF), None);
    assert_eq!(parse_unsigned("-1", 0xFFFF_FFFF), None);
    assert_eq!(parse_unsigned("1 ", 0xFFFF_FFFF), None);
    assert_eq!(parse_unsigned("12a", 0xFFFF_FFFF), None);
    assert_eq!(parse_unsigned("18446744073709551615", u64::MAX), Some(u64::MAX));
    assert_eq!(parse_unsigned("18446744073709551616", u64::MAX), None);
}

#[test]
fn words_are_runs_without_white_space() {
    assert_eq!(split_words("  -p  23333\t--x "), vec!["-p", "23333", "--x"]);
    assert_eq!(split_words(""), Vec::<String>::new());
    assert_eq!(split_words(" \n "), Vec::<String>::new());
    assert_eq!(split_words("one"), vec!["one"]);
    assert_eq!(split_words("a\u{3000}b"), vec!["a", "b"]);
}

#[test]
fn ends_are_trimmed_of_given_characters() {
    assert_eq!(trim_end_of("http://x///", '/', '/'), "http://x");
    assert_eq!(trim_end_of("C:\\dl\\/", '\\', '/'), "C:\\dl");
    assert_eq!(trim_end_of("///", '/', '/'), "");
    assert_eq!(trim_end_of("a/b", '/', '/'), "a/b");
    assert!(contains_char("C:\\dl", ':'));
    assert!(!contains_char("/mnt/dl", ':'));
}

#[test]
fn errors_show_their_text() {
    assert_eq!(
        FavlistError::InvalidUrl("x".to_string()).to_string(),
        "无法解析收藏夹链接: x"
    );
    assert_eq!(FavlistError::Request("x".to_string()).to_string(), "网络请求失败: x");
    assert_eq!(
        FavlistError::Api { code: -101, message: "账号未登录".to_string() }.to_string(),
        "API响应错误(code=-101, message=账号未登录)"
    );
    assert_eq!(
        FavlistError::InvalidJson("x".to_string()).to_string(),
        "响应不是有效的JSON: x"
    );
    assert_eq!(FavlistError::Io("x".to_string()).to_string(), "读取文件失败: x");
    assert_eq!(FavlistError::Csv("x".to_string()).to_string(), "CSV解析失败: x");
    assert_eq!(FavlistError::Encoding("x".to_string()).to_string(), "编码转换失败: x");
    assert_eq!(
        FavlistError::UnsupportedEncoding("x".to_string()).to_string(),
        "编码转换失败: 不支持的编码: x"
    );
    assert_eq!(FavlistError::Other("x".to_string()).to_string(), "未知错误: x");
}

#[test]
fn export_errors_take_context() {
    let core = ExportError::Core(FavlistError::Other("boom".to_string()));
    assert_eq!(core.to_string(), "收藏夹导出失败: 未知错误: boom");
    let with = core.context("导出收藏夹失败");
    assert_eq!(with.to_string(), "执行业务流程失败: 导出收藏夹失败: 未知错误: boom");
    let again = with.context("外层");
    assert_eq!(
        again.to_string(),
        "执行业务流程失败: 外层: 导出收藏夹失败: 未知错误: boom"
    );
}

#[test]
fn video_identifier_is_resolved_in_order() {
    let item = |bv_id: &str, bvid: &str, id: Option<i64>| VideoItem {
        bv_id: bv_id.to_string(),
        bvid: bvid.to_string(),
        id,
        title: String::new(),
    };
    assert_eq!(item(" BV1 ", "BV2", Some(3)).resolve_bvid(), Some("BV1".to_string()));
    assert_eq!(item("  ", " BV2\n", Some(3)).resolve_bvid(), Some("BV2".to_string()));
    assert_eq!(item("", "", Some(170001)).resolve_bvid(), Some("av170001".to_string()));
    assert_eq!(item("", "", Some(-4)).resolve_bvid(), Some("av-4".to_string()));
    assert_eq!(item("", " ", None).resolve_bvid(), None);
}

#[test]
fn folder_payload_falls_back() {
    let empty = FolderInfoPayload { id: None, fid: None, mid: None, title: None, media_count: 0 };
    let info = empty.into_folder_info(42);
    assert_eq!(info.media_id, 42);
    assert_eq!(info.fid, 0);
    assert_eq!(info.mid, 0);
    assert_eq!(info.title, "");
    assert_eq!(info.media_count, 0);
    let full = FolderInfoPayload {
        id: Some(7),
        fid: Some(8),
        mid: Some(9),
        title: Some("夹".to_string()),
        media_count: 3,
    };
    let info = full.into_folder_info(42);
    assert_eq!(info.media_id, 7);
    assert_eq!(info.fid, 8);
    assert_eq!(info.mid, 9);
    assert_eq!(info.title, "夹");
    assert_eq!(info.media_count, 3);
}

#[test]
fn media_id_comes_from_the_first_id_parameter() {
    assert_eq!(parse_media_id("https://h/p?media_id=7&fid=8").unwrap(), 7);
    assert_eq!(parse_media_id("https://h/p?x=1&fid=8&media_id=7").unwrap(), 8);
    assert_eq!(parse_media_id("https://h/p?fid=0012#frag").unwrap(), 12);
    assert_eq!(
        parse_media_id("https://h/p?fid=9223372036854775807").unwrap(),
        9223372036854775807
    );
}

#[test]
fn media_id_failures_say_why() {
    let message = |url: &str| match parse_media_id(url) {
        Err(FavlistError::InvalidUrl(m)) => m,
        other => panic!("{:?}", other),
    };
    assert_eq!(message("https://h/p?x=1"), "未在链接查询参数中找到fid或media_id");
    assert_eq!(message("https://h/p"), "未在链接查询参数中找到fid或media_id");
    assert_eq!(message("https://h/p?fid=12a"), "fid包含非法字符: 12a");
    assert_eq!(message("https://space.bilibili.com/1/favlist?fid=%2012"), "fid包含非法字符:  12");
    assert_eq!(message("https://h/p?fid=12+"), "fid包含非法字符: 12 ");
    assert_eq!(message("https://h/p?fid=%EF%BC%91"), "fid包含非法字符: １");
    assert_eq!(message("https://h/p?media_id=-5"), "media_id包含非法字符: -5");
    assert_eq!(message("https://h/p?fid="), "fid数值无效: ");
    assert_eq!(
        message("https://h/p?fid=9223372036854775808"),
        "fid数值无效: 9223372036854775808"
    );
    assert!(message("not a url").starts_with("URL解析失败: "));
    assert!(message("not a url").len() > "URL解析失败: ".len());
}

#[test]
fn media_id_is_read_from_pairs() {
    let pairs = vec![
        ("spm".to_string(), "1".to_string()),
        ("fid".to_string(), "99".to_string()),
    ];
    assert_eq!(media_id_from_pairs(&pairs).unwrap(), 99);
    let padded = vec![("fid".to_string(), " 99 ".to_string())];
    assert!(media_id_from_pairs(&padded).is_err());
    assert!(media_id_from_pairs(&Vec::new()).is_err());
}

#[test]
fn timestamp_has_its_shape() {
    let now: Vec<char> = current_timestamp().chars().collect();
    let n = now.len();
    assert!(n >= 19);
    let two = |at: usize| -> u32 {
        assert!(now[at].is_ascii_digit() && now[at + 1].is_ascii_digit());
        now[at].to_digit(10).unwrap() * 10 + now[at + 1].to_digit(10).unwrap()
    };
    let year = &now[..n - 15];
    if year.len() == 4 {
        assert!(year.iter().all(|c| c.is_ascii_digit()));
    } else {
        assert!(year[0] == '+' || year[0] == '-');
        assert!(year.len() >= 5 && year[1..].iter().all(|c| c.is_ascii_digit()));
    }
    assert_eq!(now[n - 15], '-');
    assert!((1..=12).contains(&two(n - 14)));
    assert_eq!(now[n - 12], '-');
    assert!((1..=31).contains(&two(n - 11)));
    assert_eq!(now[n - 9], 'T');
    assert!(two(n - 8) <= 23);
    assert_eq!(now[n - 6], '-');
    assert!(two(n - 5) <= 59);
    assert_eq!(now[n - 3], '-');
    assert!(two(n - 2) <= 60);
}
