use favlist_core::bbdown::{
    bbdown_exit, kill_failure, launch_failed, normalize_target, parse_pid, run_bbdown,
    serve_arguments, should_launch_windows_detached, taskkill_arguments, windows_launch_script,
    BbdownApiClient, BbdownError, BbdownRun, DownloadTask, IdleWait, Observation, WaitOutcome,
    WaitStep, STALL_TIMEOUT_MS,
};

fn task(url: Option<&str>, aid: Option<&str>) -> DownloadTask {
    DownloadTask {
        aid: aid.map(|s| s.to_string()),
        url: url.map(|s| s.to_string()),
        title: Some("标题".to_string()),
    }
}

fn targets(list: &[&str]) -> Vec<String> {
    list.iter().map(|s| s.to_string()).collect()
}

#[test]
fn targets_are_compared_trimmed_and_in_lower_case() {
    assert_eq!(normalize_target("  BV1xx41117XB \n"), "bv1xx41117xb");
    assert_eq!(normalize_target("ÀB"), "àb");
    assert_eq!(normalize_target(""), "");
    assert_eq!(task(Some(" BV1 "), Some("AV2")).target_key(), Some("bv1".to_string()));
    assert_eq!(task(None, Some(" AV2")).target_key(), Some("av2".to_string()));
    assert_eq!(task(None, None).target_key(), None);
}

#[test]
fn client_keeps_the_address_without_its_last_slashes() {
    let client = BbdownApiClient::new("http://localhost:23333//", 30);
    assert_eq!(client.base_url(), "http://localhost:23333");
    assert_eq!(client.timeout_secs(), 30);
    assert_eq!(client.get_running(), "http://localhost:23333/get-tasks/running");
    assert_eq!(client.get_finished(), "http://localhost:23333/get-tasks/finished");
    assert_eq!(client.remove_finished(), "http://localhost:23333/remove-finished");
    let request = client.add_task("BV1xx41117xb", Some("C:\\dl\\<videoTitle>"), None);
    assert_eq!(request.url, "http://localhost:23333/add-task");
    assert_eq!(request.payload.url, "BV1xx41117xb");
    assert_eq!(request.payload.file_pattern.as_deref(), Some("C:\\dl\\<videoTitle>"));
    assert!(request.payload.multi_file_pattern.is_none());
}

#[test]
fn only_status_200_is_taken_for_done() {
    assert!(BbdownApiClient::task_added(200, "200 OK").is_ok());
    assert_eq!(
        BbdownApiClient::task_added(201, "201 Created").unwrap_err().to_string(),
        "添加任务失败，状态码 201 Created"
    );
    assert!(BbdownApiClient::finished_removed(200, "200 OK").is_ok());
    assert_eq!(
        BbdownApiClient::finished_removed(500, "500 Internal Server Error").unwrap_err().to_string(),
        "移除已完成任务失败，状态码 500 Internal Server Error"
    );
    let listed = BbdownApiClient::running_tasks(200, "200 OK", Ok(vec![task(Some("a"), None)]));
    assert_eq!(listed.unwrap().len(), 1);
    assert_eq!(
        BbdownApiClient::running_tasks(404, "404 Not Found", Ok(Vec::new())).unwrap_err().to_string(),
        "获取运行中任务失败，状态码 404 Not Found"
    );
    assert_eq!(
        BbdownApiClient::running_tasks(200, "200 OK", Err("eof".to_string())).unwrap_err().to_string(),
        "解析运行中任务失败: eof"
    );
    assert_eq!(BbdownApiClient::finished_tasks(200, "200 OK", Ok(Vec::new())).unwrap().len(), 0);
    assert_eq!(
        BbdownApiClient::finished_tasks(503, "503", Err("eof".to_string())).unwrap_err().to_string(),
        "获取已完成任务失败，状态码 503"
    );
    assert_eq!(
        BbdownApiClient::finished_tasks(200, "200 OK", Err("eof".to_string())).unwrap_err().to_string(),
        "解析已完成任务失败: eof"
    );
    assert_eq!(
        BbdownError::WaitTimedOut.to_string(),
        "等待下载任务超时, 请确认 bbdown serve 状态"
    );
    assert_eq!(BbdownError::Transport("refused".to_string()).to_string(), "refused");
}

#[test]
fn wait_ends_at_once_on_an_idle_server() {
    let mut wait = IdleWait::new(&Vec::new(), 0);
    assert!(!wait.needs_finished());
    assert_eq!(wait.observe(&Vec::new(), &Vec::new(), 10), WaitStep::Done);
}

#[test]
fn wait_goes_on_while_targets_are_pending() {
    let client = BbdownApiClient::new("http://localhost:23333", 30);
    let mut wait = client.wait_until_idle(&targets(&[" BV1 ", "bv2", "BV1"]), 1_000);
    assert!(wait.needs_finished());
    let running = vec![task(Some("BV1"), None)];
    assert_eq!(wait.observe(&running, &Vec::new(), 2_000), WaitStep::Sleep);
    // BV1 is finished, BV2 still runs
    let running = vec![task(Some("BV2"), None)];
    assert_eq!(wait.observe(&running, &vec![task(Some("bv1 "), None)], 3_000), WaitStep::Sleep);
    assert!(wait.needs_finished());
    // BV2 is finished but something else still runs
    let other = vec![task(Some("BV9"), None)];
    assert_eq!(wait.observe(&other, &vec![task(None, Some("BV2"))], 4_000), WaitStep::Sleep);
    assert!(!wait.needs_finished());
    assert_eq!(wait.observe(&Vec::new(), &Vec::new(), 5_000), WaitStep::Done);
}

#[test]
fn wait_times_out_without_progress() {
    let mut wait = IdleWait::new(&targets(&["BV1", "BV2"]), 1_000);
    let running = vec![task(Some("BV1"), None)];
    assert_eq!(wait.observe(&running, &Vec::new(), 1_000 + STALL_TIMEOUT_MS), WaitStep::Sleep);
    assert_eq!(
        wait.observe(&running, &vec![task(Some("BV7"), None)], 1_001 + STALL_TIMEOUT_MS),
        WaitStep::TimedOut
    );
    // progress resets the clock
    let mut wait = IdleWait::new(&targets(&["BV1", "BV2"]), 1_000);
    assert_eq!(
        wait.observe(&running, &vec![task(Some("BV2"), None)], 500_000),
        WaitStep::Sleep
    );
    assert_eq!(wait.observe(&running, &Vec::new(), 500_000 + STALL_TIMEOUT_MS), WaitStep::Sleep);
    assert_eq!(
        wait.observe(&running, &Vec::new(), 500_001 + STALL_TIMEOUT_MS),
        WaitStep::TimedOut
    );
    // a clock that runs backwards counts as no time
    let mut wait = IdleWait::new(&targets(&["BV1"]), 1_000);
    assert_eq!(wait.observe(&running, &Vec::new(), 0), WaitStep::Sleep);
}

#[test]
fn idle_server_after_the_window_fails_once_and_ends_the_second_time() {
    let mut wait = IdleWait::new(&Vec::new(), 0);
    assert_eq!(wait.observe(&Vec::new(), &Vec::new(), STALL_TIMEOUT_MS + 1), WaitStep::TimedOut);
    assert_eq!(wait.observe(&Vec::new(), &Vec::new(), STALL_TIMEOUT_MS + 2), WaitStep::Done);
}

fn look(running: &[&str], finished: &[&str], now_ms: u64) -> Observation {
    Observation {
        running: running.iter().map(|id| task(Some(id), None)).collect(),
        finished: finished.iter().map(|id| task(Some(id), None)).collect(),
        now_ms,
    }
}

#[test]
fn recorded_looks_decide_the_outcome() {
    let looks = |count: usize| -> Vec<Observation> {
        let all = vec![
            look(&["BV1"], &[], 100),
            look(&["BV1"], &[], 200),
            look(&[], &["BV1"], 300),
            look(&["BV5"], &[], 400),
        ];
        all.into_iter().take(count).collect()
    };
    assert_eq!(IdleWait::new(&targets(&["BV1"]), 0).run(&looks(4)), WaitOutcome::Idle);
    assert_eq!(IdleWait::new(&targets(&["BV1"]), 0).run(&looks(3)), WaitOutcome::Idle);
    assert_eq!(IdleWait::new(&targets(&["BV1"]), 0).run(&looks(2)), WaitOutcome::Waiting);
    let stalled = vec![look(&["BV1"], &[], 100), look(&["BV1"], &["BV2"], 700_000)];
    assert_eq!(IdleWait::new(&targets(&["BV1"]), 0).run(&stalled), WaitOutcome::TimedOut);
    assert_eq!(IdleWait::new(&targets(&["BV1"]), 0).run(&Vec::new()), WaitOutcome::Waiting);
}

#[test]
fn server_is_started_with_serve_first() {
    assert_eq!(serve_arguments(&targets(&["-p", "23333"])), vec!["serve", "-p", "23333"]);
    assert_eq!(serve_arguments(&Vec::new()), vec!["serve"]);
    assert!(should_launch_windows_detached(true, false));
    assert!(should_launch_windows_detached(false, true));
    assert!(!should_launch_windows_detached(false, false));
}

#[test]
fn launch_script_doubles_the_quotes() {
    assert_eq!(
        windows_launch_script(&targets(&["--dir", "it's"])),
        "$proc = Start-Process -FilePath 'bbdown' -ArgumentList 'serve --dir it''s' -WindowStyle Normal -PassThru; Write-Output $proc.Id"
    );
    assert_eq!(
        windows_launch_script(&Vec::new()),
        "$proc = Start-Process -FilePath 'bbdown' -ArgumentList 'serve' -WindowStyle Normal -PassThru; Write-Output $proc.Id"
    );
}

#[test]
fn pid_is_read_from_what_the_shell_printed() {
    assert_eq!(parse_pid(" 4321\r\n").unwrap(), 4321);
    assert_eq!(parse_pid("4294967295").unwrap(), 4294967295);
    assert_eq!(
        parse_pid(" x12 ").unwrap_err().to_string(),
        "解析 bbdown serve PID 失败: x12"
    );
    assert!(parse_pid("4294967296").is_err());
    assert!(parse_pid("").is_err());
    assert_eq!(
        launch_failed(" not found \n").to_string(),
        "启动 bbdown serve 失败: not found"
    );
    assert_eq!(taskkill_arguments(4321), vec!["/PID", "4321", "/F"]);
    assert!(kill_failure(true, "gone").is_ok());
    assert_eq!(kill_failure(false, "denied").unwrap_err().to_string(), "denied");
}

#[test]
fn download_tool_is_run_or_only_shown() {
    match run_bbdown("BV1xx41117xb", "/dl", true) {
        BbdownRun::DryRun(line) => assert_eq!(line, "[dry-run] bbdown BV1xx41117xb --work-dir /dl"),
        other => panic!("{:?}", other),
    }
    match run_bbdown("BV1xx41117xb", "/dl", false) {
        BbdownRun::Command(args) => assert_eq!(args, vec!["BV1xx41117xb", "--work-dir", "/dl"]),
        other => panic!("{:?}", other),
    }
    assert!(bbdown_exit(true, Some(0)).is_ok());
    assert_eq!(bbdown_exit(false, Some(3)).unwrap_err().to_string(), "bbdown 执行失败，退出码 3");
    assert_eq!(bbdown_exit(false, None).unwrap_err().to_string(), "bbdown 执行失败，退出码 -1");
}
