use favlist_core::config::{FavConfig, GlobalDefaults};
use favlist_core::csv_utils::CsvRow;
use favlist_core::export::ExportResult;
use favlist_core::helper::{
    bvids_of, check_missing, check_update, config_label, edit_config, extract_bvid,
    handle_config_actions, handle_global_defaults, handle_new_config, ledger_file_name, main_menu,
    normalize_optional, parse_args, parse_bool_input, parse_count, print_summary,
    resolve_optional_with_default, resolve_string_with_default, synced_config,
    update_export_options, ConfigAction, DefaultsAnswers, EditAnswers, MainAction, MissingPlan,
    NewConfigAnswers,
};
use favlist_core::menu::{
    menu_lines, menu_step, normalize_key, select_from_menu, KeyCode, KeyInput, MenuOutcome,
    MenuStep, NormalizedKey,
};
use favlist_core::models::{FolderInfo, VideoEntry};
use favlist_core::prompts::{print_prompt, prompt_input};

fn config() -> FavConfig {
    FavConfig {
        fav_url: "https://space.bilibili.com/1/favlist?fid=2".to_string(),
        api_download_dir: "D:\\dl".to_string(),
        scan_download_dir: Some("/mnt/d/dl".to_string()),
        csv_path: "/mnt/d/dl/old-favlist.csv".to_string(),
        encoding: "utf-8".to_string(),
        page_size: 40,
        cookie: Some("c=1".to_string()),
        timeout_secs: 10,
        last_synced_at: None,
        name: Some("mine".to_string()),
        bbdown_serve_url: "http://localhost:23333".to_string(),
        bbdown_auto_launch: true,
        bbdown_launch_args: vec!["-p".to_string()],
        bbdown_poll_interval_ms: 500,
        file_pattern: Some("<videoTitle>".to_string()),
        multi_file_pattern: None,
    }
}

fn row(cells: &[(&str, &str)]) -> CsvRow {
    let mut row = CsvRow::new();
    for (key, value) in cells {
        row.insert(key.to_string(), value.to_string());
    }
    row
}

fn strings(list: &[&str]) -> Vec<String> {
    list.iter().map(|s| s.to_string()).collect()
}

#[test]
fn optional_answers_are_trimmed_or_nothing() {
    assert_eq!(normalize_optional("  x y "), Some("x y".to_string()));
    assert_eq!(normalize_optional(" \t"), None);
    assert_eq!(normalize_optional(""), None);
}

#[test]
fn yes_and_no_are_understood() {
    for yes in ["y", "Y", " yes ", "TRUE", "True"] {
        assert!(parse_bool_input(yes, false), "{}", yes);
    }
    for no in ["n", "N", "no", " False\n", "NO"] {
        assert!(!parse_bool_input(no, true), "{}", no);
    }
    for other in ["", "  ", "maybe", "1", "yess"] {
        assert!(parse_bool_input(other, true), "{}", other);
        assert!(!parse_bool_input(other, false), "{}", other);
    }
}

#[test]
fn arguments_are_the_words_of_a_line() {
    assert_eq!(parse_args(" -p 23333   --x\t"), vec!["-p", "23333", "--x"]);
    assert!(parse_args("   ").is_empty());
}

#[test]
fn answers_fall_back_on_defaults() {
    let preferred = "pref".to_string();
    assert_eq!(resolve_string_with_default(" a ", Some(&preferred), "fb"), "a");
    assert_eq!(resolve_string_with_default("  ", Some(&preferred), "fb"), "pref");
    assert_eq!(resolve_string_with_default("", None, "fb"), "fb");
    assert_eq!(resolve_optional_with_default(" a ", Some(&preferred)), Some("a".to_string()));
    assert_eq!(resolve_optional_with_default(" ", Some(&preferred)), Some("pref".to_string()));
    assert_eq!(resolve_optional_with_default("", None), None);
    assert_eq!(resolve_optional_with_default(" - ", Some(&preferred)), None);
    assert_eq!(resolve_optional_with_default("--", Some(&preferred)), Some("--".to_string()));
}

#[test]
fn counts_have_a_fallback_and_a_floor() {
    assert_eq!(parse_count(" 25 ", 0xFFFF_FFFF, 40, 1), 25);
    assert_eq!(parse_count("0", 0xFFFF_FFFF, 40, 1), 1);
    assert_eq!(parse_count("abc", 0xFFFF_FFFF, 40, 1), 40);
    assert_eq!(parse_count("", 0xFFFF_FFFF, 40, 1), 40);
    assert_eq!(parse_count("4294967296", 0xFFFF_FFFF, 40, 1), 40);
    assert_eq!(parse_count("20", u64::MAX, 500, 50), 50);
    assert_eq!(parse_count("x", u64::MAX, 10, 50), 50);
}

#[test]
fn menus_lead_to_actions() {
    assert_eq!(main_menu(MenuOutcome::Selected(0)), MainAction::NewConfig);
    assert_eq!(main_menu(MenuOutcome::Selected(1)), MainAction::UseConfig);
    assert_eq!(main_menu(MenuOutcome::Selected(2)), MainAction::EditDefaults);
    assert_eq!(main_menu(MenuOutcome::Selected(3)), MainAction::Exit);
    assert_eq!(main_menu(MenuOutcome::Selected(9)), MainAction::Exit);
    assert_eq!(main_menu(MenuOutcome::Esc), MainAction::Exit);
    assert_eq!(handle_config_actions(MenuOutcome::Selected(0)), ConfigAction::Edit);
    assert_eq!(handle_config_actions(MenuOutcome::Selected(1)), ConfigAction::CheckUpdate);
    assert_eq!(handle_config_actions(MenuOutcome::Selected(2)), ConfigAction::CheckMissing);
    assert_eq!(handle_config_actions(MenuOutcome::Selected(3)), ConfigAction::Back);
    assert_eq!(handle_config_actions(MenuOutcome::Esc), ConfigAction::Back);
}

#[test]
fn configurations_are_labelled() {
    let mut c = config();
    assert_eq!(config_label(0, &c), "mine -> https://space.bilibili.com/1/favlist?fid=2");
    c.name = Some(String::new());
    assert_eq!(config_label(0, &c), "收藏夹 1 -> https://space.bilibili.com/1/favlist?fid=2");
    c.name = None;
    assert_eq!(config_label(11, &c), "收藏夹 12 -> https://space.bilibili.com/1/favlist?fid=2");
    assert_eq!(ledger_file_name("2025-11-02T12-00-00"), "2025-11-02T12-00-00-favlist.csv");
}

#[test]
fn identifiers_of_rows_keep_their_order() {
    let rows = vec![row(&[("bv_id", "b")]), row(&[("title", "t")]), row(&[("BV号", " a ")])];
    assert_eq!(bvids_of(&rows), vec!["b", "a"]);
    assert_eq!(extract_bvid(&rows[2]), Some("a".to_string()));
    assert_eq!(extract_bvid(&rows[1]), None);
    let old = vec![row(&[("bv_id", "b")])];
    assert_eq!(check_update(&old, &rows), vec!["a"]);
    assert!(check_update(&rows, &rows).is_empty());
}

#[test]
fn check_for_missing_videos_plans_the_work() {
    let rows = vec![row(&[("bv_id", "BV1")]), row(&[("bv_id", "BV2")]), row(&[("bv_id", "BV3")])];
    assert!(matches!(
        check_missing(&config(), &rows, &strings(&["BV1", "BV2", "BV3"]), false),
        MissingPlan::NothingMissing
    ));
    assert!(matches!(check_missing(&config(), &Vec::new(), &Vec::new(), true), MissingPlan::NothingMissing));
    match check_missing(&config(), &rows, &strings(&["BV2"]), false) {
        MissingPlan::Submit(tasks) => {
            assert_eq!(tasks.bvids, vec!["BV1", "BV3"]);
            assert_eq!(tasks.serve_url, "http://localhost:23333");
            assert!(tasks.auto_launch);
            assert_eq!(tasks.launch_args, vec!["-p"]);
            assert_eq!(tasks.file_pattern.as_deref(), Some("D:\\dl\\<videoTitle>"));
            assert!(tasks.multi_file_pattern.is_none());
            assert_eq!(tasks.poll_interval_ms, 500);
        }
        other => panic!("{:?}", other),
    }
    match check_missing(&config(), &rows, &strings(&["BV2"]), true) {
        MissingPlan::DryRun(lines) => assert_eq!(
            lines,
            vec![
                "目标服务：http://localhost:23333",
                "FilePattern: D:\\dl\\<videoTitle>",
                "[dry-run] POST http://localhost:23333/add-task { Url: \"BV1\" }",
                "[dry-run] POST http://localhost:23333/add-task { Url: \"BV3\" }",
            ]
        ),
        other => panic!("{:?}", other),
    }
}

fn result() -> ExportResult {
    ExportResult {
        csv_path: "/mnt/d/dl/new-favlist.csv".to_string(),
        folder_info: FolderInfo { media_id: 2, fid: 0, mid: 1, title: "夹".to_string(), media_count: 9 },
        new_entries: vec![VideoEntry {
            bv_id: "BV1".to_string(),
            title: "t".to_string(),
            fav_title: "夹".to_string(),
            timestamp: "ts".to_string(),
            aid: None,
        }],
        timestamp: "ts".to_string(),
        processed_count: 9,
        total_count: Some(9),
    }
}

#[test]
fn export_is_summed_up_and_remembered() {
    assert_eq!(
        print_summary(&result()),
        vec!["收藏夹： 夹", "处理条目： 9/9", "新增条目： 1", "输出文件： /mnt/d/dl/new-favlist.csv"]
    );
    let mut unknown = result();
    unknown.total_count = None;
    unknown.new_entries.clear();
    assert_eq!(print_summary(&unknown)[1], "处理条目： 9");
    assert_eq!(print_summary(&unknown)[2], "新增条目： 0");
    let synced = synced_config(config(), &result());
    assert_eq!(synced.csv_path, "/mnt/d/dl/new-favlist.csv");
    assert_eq!(synced.last_synced_at.as_deref(), Some("ts"));
    assert_eq!(synced.name.as_deref(), Some("mine"));
    let options = update_export_options(&config(), "/x/new.csv", "ts2");
    assert_eq!(options.fav_url, config().fav_url);
    assert_eq!(options.csv_path, "/x/new.csv");
    assert_eq!(options.timestamp.as_deref(), Some("ts2"));
    assert_eq!(options.cookie.as_deref(), Some("c=1"));
    assert_eq!(options.page_size, 40);
    assert!(options.base_url.is_none());
}

fn no_edits() -> EditAnswers {
    EditAnswers {
        api_download_dir: String::new(),
        scan_download_dir: String::new(),
        fav_url: String::new(),
        csv_path: String::new(),
        encoding: String::new(),
        page_size: String::new(),
        timeout_secs: String::new(),
        cookie: String::new(),
        name: String::new(),
        bbdown_serve_url: String::new(),
        bbdown_auto_launch: String::new(),
        bbdown_launch_args: String::new(),
        bbdown_poll_interval_ms: String::new(),
        file_pattern: String::new(),
        multi_file_pattern: String::new(),
    }
}

#[test]
fn empty_answers_leave_a_configuration_as_it_is() {
    let kept = edit_config(config(), &no_edits());
    let before = config();
    assert_eq!(kept.api_download_dir, before.api_download_dir);
    assert_eq!(kept.scan_download_dir, before.scan_download_dir);
    assert_eq!(kept.fav_url, before.fav_url);
    assert_eq!(kept.csv_path, before.csv_path);
    assert_eq!(kept.encoding, before.encoding);
    assert_eq!(kept.page_size, before.page_size);
    assert_eq!(kept.timeout_secs, before.timeout_secs);
    assert_eq!(kept.cookie, before.cookie);
    assert_eq!(kept.name, before.name);
    assert_eq!(kept.bbdown_serve_url, before.bbdown_serve_url);
    assert_eq!(kept.bbdown_auto_launch, before.bbdown_auto_launch);
    assert_eq!(kept.bbdown_launch_args, before.bbdown_launch_args);
    assert_eq!(kept.bbdown_poll_interval_ms, before.bbdown_poll_interval_ms);
    assert_eq!(kept.file_pattern, before.file_pattern);
    assert_eq!(kept.multi_file_pattern, before.multi_file_pattern);
}

#[test]
fn answers_change_a_configuration() {
    let mut answers = no_edits();
    answers.api_download_dir = "E:\\v".to_string();
    answers.scan_download_dir = "/mnt/e/v".to_string();
    answers.encoding = "gbk".to_string();
    answers.page_size = "0".to_string();
    answers.timeout_secs = "x".to_string();
    answers.cookie = "-".to_string();
    answers.name = "new".to_string();
    answers.bbdown_serve_url = " http://h:1 ".to_string();
    answers.bbdown_auto_launch = "n".to_string();
    answers.bbdown_launch_args = "-".to_string();
    answers.bbdown_poll_interval_ms = " 10 ".to_string();
    answers.file_pattern = "-".to_string();
    answers.multi_file_pattern = " <a>/<b> ".to_string();
    let edited = edit_config(config(), &answers);
    assert_eq!(edited.api_download_dir, "E:\\v");
    assert_eq!(edited.scan_download_dir.as_deref(), Some("/mnt/e/v"));
    assert_eq!(edited.encoding, "gbk");
    assert_eq!(edited.page_size, 1);
    assert_eq!(edited.timeout_secs, 10);
    assert_eq!(edited.cookie, None);
    assert_eq!(edited.name.as_deref(), Some("new"));
    assert_eq!(edited.bbdown_serve_url, "http://h:1");
    assert!(!edited.bbdown_auto_launch);
    assert!(edited.bbdown_launch_args.is_empty());
    assert_eq!(edited.bbdown_poll_interval_ms, 50);
    assert_eq!(edited.file_pattern, None);
    assert_eq!(edited.multi_file_pattern.as_deref(), Some("<a>/<b>"));
    let mut answers = no_edits();
    answers.page_size = " 7".to_string();
    answers.bbdown_launch_args = " -p 1 ".to_string();
    answers.timeout_secs = "30".to_string();
    let edited = edit_config(config(), &answers);
    assert_eq!(edited.page_size, 40);
    assert_eq!(edited.timeout_secs, 30);
    assert_eq!(edited.bbdown_launch_args, vec!["-p", "1"]);
}

#[test]
fn global_defaults_follow_the_answers() {
    let mut snapshot = GlobalDefaults::default();
    snapshot.api_download_dir = Some("D:\\dl".to_string());
    snapshot.file_pattern = Some("<videoTitle>".to_string());
    let answers = DefaultsAnswers {
        api_download_dir: " ".to_string(),
        scan_download_dir: " /mnt/d/dl ".to_string(),
        bbdown_serve_url: String::new(),
        file_pattern: "-".to_string(),
        multi_file_pattern: String::new(),
    };
    let updated = handle_global_defaults(snapshot, &answers);
    assert_eq!(updated.api_download_dir.as_deref(), Some("D:\\dl"));
    assert_eq!(updated.scan_download_dir.as_deref(), Some("/mnt/d/dl"));
    assert_eq!(updated.bbdown_serve_url.as_deref(), Some("http://localhost:23333"));
    assert_eq!(updated.file_pattern, None);
    assert_eq!(updated.multi_file_pattern, None);
    let mut answers = answers;
    answers.bbdown_serve_url = "-".to_string();
    let cleared = handle_global_defaults(updated, &answers);
    assert_eq!(cleared.bbdown_serve_url, None);
}

fn blank_answers(fav_url: &str) -> NewConfigAnswers {
    NewConfigAnswers {
        fav_url: fav_url.to_string(),
        api_download_dir: String::new(),
        scan_download_dir: String::new(),
        encoding: String::new(),
        page_size: String::new(),
        timeout_secs: String::new(),
        cookie: String::new(),
        name: String::new(),
        file_pattern: String::new(),
        multi_file_pattern: String::new(),
        bbdown_serve_url: String::new(),
        bbdown_auto_launch: String::new(),
        bbdown_launch_args: String::new(),
        bbdown_poll_interval_ms: String::new(),
    }
}

#[test]
fn new_folder_without_a_link_is_cancelled() {
    assert!(handle_new_config(&blank_answers("  "), &GlobalDefaults::default(), "/cwd", "ts").is_none());
}

#[test]
fn new_folder_takes_defaults_for_blank_answers() {
    let mut defaults = GlobalDefaults::default();
    defaults.api_download_dir = Some("D:\\dl".to_string());
    defaults.file_pattern = Some("<videoTitle>".to_string());
    let plan = handle_new_config(&blank_answers("https://h/?fid=1"), &defaults, "/cwd", "ts")
        .unwrap();
    let c = &plan.config;
    assert_eq!(c.fav_url, "https://h/?fid=1");
    assert_eq!(c.api_download_dir, "D:\\dl");
    assert_eq!(c.scan_download_dir.as_deref(), Some("/cwd"));
    assert_eq!(c.csv_path, "/cwd/ts-favlist.csv");
    assert_eq!(c.encoding, "utf-8");
    assert_eq!(c.page_size, 40);
    assert_eq!(c.timeout_secs, 10);
    assert_eq!(c.cookie, None);
    assert_eq!(c.name, None);
    assert_eq!(c.file_pattern.as_deref(), Some("<videoTitle>"));
    assert_eq!(c.multi_file_pattern, None);
    assert_eq!(c.bbdown_serve_url, "http://localhost:23333");
    assert!(c.bbdown_auto_launch);
    assert!(c.bbdown_launch_args.is_empty());
    assert_eq!(c.bbdown_poll_interval_ms, 500);
    assert_eq!(c.last_synced_at, None);
    let o = &plan.options;
    assert_eq!(o.fav_url, "https://h/?fid=1");
    assert_eq!(o.csv_path, "/cwd/ts-favlist.csv");
    assert_eq!(o.encoding, "utf-8");
    assert_eq!(o.page_size, 40);
    assert_eq!(o.timeout_secs, 10);
    assert_eq!(o.timestamp.as_deref(), Some("ts"));
}

#[test]
fn new_folder_takes_the_answers() {
    let mut answers = blank_answers("https://h/?fid=1");
    answers.api_download_dir = " E:\\v ".to_string();
    answers.scan_download_dir = "/mnt/e/v".to_string();
    answers.encoding = " gbk ".to_string();
    answers.page_size = "0".to_string();
    answers.timeout_secs = " 30 ".to_string();
    answers.cookie = " c=1 ".to_string();
    answers.name = "mine".to_string();
    answers.file_pattern = "-".to_string();
    answers.multi_file_pattern = "<a>".to_string();
    answers.bbdown_serve_url = "http://h:1".to_string();
    answers.bbdown_auto_launch = "no".to_string();
    answers.bbdown_launch_args = "-p 1".to_string();
    answers.bbdown_poll_interval_ms = "20".to_string();
    let mut defaults = GlobalDefaults::default();
    defaults.file_pattern = Some("<videoTitle>".to_string());
    let plan = handle_new_config(&answers, &defaults, "/cwd", "ts").unwrap();
    let c = &plan.config;
    assert_eq!(c.api_download_dir, "E:\\v");
    assert_eq!(c.scan_download_dir.as_deref(), Some("/mnt/e/v"));
    assert_eq!(c.csv_path, "/mnt/e/v/ts-favlist.csv");
    assert_eq!(c.encoding, "gbk");
    assert_eq!(c.page_size, 1);
    assert_eq!(c.timeout_secs, 30);
    assert_eq!(c.cookie.as_deref(), Some("c=1"));
    assert_eq!(c.name.as_deref(), Some("mine"));
    assert_eq!(c.file_pattern, None);
    assert_eq!(c.multi_file_pattern.as_deref(), Some("<a>"));
    assert_eq!(c.bbdown_serve_url, "http://h:1");
    assert!(!c.bbdown_auto_launch);
    assert_eq!(c.bbdown_launch_args, vec!["-p", "1"]);
    assert_eq!(c.bbdown_poll_interval_ms, 50);
    assert_eq!(plan.options.cookie.as_deref(), Some("c=1"));
}

fn press(code: KeyCode) -> KeyInput {
    KeyInput { is_press: true, has_modifiers: false, code }
}

#[test]
fn keys_mean_moves_and_choices() {
    assert_eq!(normalize_key(press(KeyCode::Up)), Some(NormalizedKey::Up));
    assert_eq!(normalize_key(press(KeyCode::Left)), Some(NormalizedKey::Up));
    assert_eq!(normalize_key(press(KeyCode::Down)), Some(NormalizedKey::Down));
    assert_eq!(normalize_key(press(KeyCode::Right)), Some(NormalizedKey::Down));
    assert_eq!(normalize_key(press(KeyCode::Enter)), Some(NormalizedKey::Confirm));
    assert_eq!(normalize_key(press(KeyCode::Char(' '))), Some(NormalizedKey::Confirm));
    assert_eq!(normalize_key(press(KeyCode::Esc)), Some(NormalizedKey::Esc));
    for c in ['w', 'W', 'a', 'A'] {
        assert_eq!(normalize_key(press(KeyCode::Char(c))), Some(NormalizedKey::Up));
    }
    for c in ['s', 'S', 'd', 'D'] {
        assert_eq!(normalize_key(press(KeyCode::Char(c))), Some(NormalizedKey::Down));
    }
    assert_eq!(normalize_key(press(KeyCode::Char('q'))), None);
    assert_eq!(normalize_key(press(KeyCode::Other)), None);
    let release = KeyInput { is_press: false, has_modifiers: false, code: KeyCode::Enter };
    assert_eq!(normalize_key(release), None);
    let held = KeyInput { is_press: true, has_modifiers: true, code: KeyCode::Enter };
    assert_eq!(normalize_key(held), None);
}

#[test]
fn mark_moves_around_the_menu() {
    assert_eq!(menu_step(0, 4, Some(NormalizedKey::Up)), MenuStep::Marked(3));
    assert_eq!(menu_step(2, 4, Some(NormalizedKey::Up)), MenuStep::Marked(1));
    assert_eq!(menu_step(3, 4, Some(NormalizedKey::Down)), MenuStep::Marked(0));
    assert_eq!(menu_step(1, 4, Some(NormalizedKey::Down)), MenuStep::Marked(2));
    assert_eq!(menu_step(1, 4, None), MenuStep::Marked(1));
    assert_eq!(
        menu_step(1, 4, Some(NormalizedKey::Confirm)),
        MenuStep::Finished(MenuOutcome::Selected(1))
    );
    assert_eq!(menu_step(1, 4, Some(NormalizedKey::Esc)), MenuStep::Finished(MenuOutcome::Esc));
    assert_eq!(menu_step(0, 1, Some(NormalizedKey::Down)), MenuStep::Marked(0));
    assert_eq!(menu_step(0, 1, Some(NormalizedKey::Up)), MenuStep::Marked(0));
}

#[test]
fn menu_runs_until_a_key_ends_it() {
    let keys = vec![
        press(KeyCode::Down),
        press(KeyCode::Char('x')),
        press(KeyCode::Down),
        press(KeyCode::Up),
        press(KeyCode::Up),
        press(KeyCode::Up),
        press(KeyCode::Enter),
        press(KeyCode::Esc),
    ];
    assert_eq!(select_from_menu(3, &keys), Some(MenuOutcome::Selected(2)));
    assert_eq!(select_from_menu(3, &keys[..3].to_vec()), None);
    assert_eq!(select_from_menu(3, &vec![press(KeyCode::Esc)]), Some(MenuOutcome::Esc));
    assert_eq!(select_from_menu(0, &keys), Some(MenuOutcome::Esc));
    assert_eq!(select_from_menu(3, &Vec::new()), None);
}

#[test]
fn menu_is_drawn_with_its_mark() {
    let lines = menu_lines("请选择操作", &vec!["一".to_string(), "二".to_string()], 1);
    assert_eq!(lines, vec!["请选择操作", "", "  一", "> 二"]);
    assert_eq!(menu_lines("t", &Vec::new(), 0), vec!["t", ""]);
}

#[test]
fn questions_show_their_default() {
    assert_eq!(print_prompt("编码", Some("utf-8")), "编码 [utf-8]: ");
    assert_eq!(print_prompt("编码", Some("")), "编码: ");
    assert_eq!(print_prompt("编码", None), "编码: ");
    assert_eq!(prompt_input("  gbk \n", Some("utf-8")), "gbk");
    assert_eq!(prompt_input(" \n", Some("utf-8")), "utf-8");
    assert_eq!(prompt_input("\n", None), "");
}
