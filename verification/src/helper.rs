//! The rules of the interactive helper: what the answers of the user mean
//! for a configuration, and what a check of a folder asks to be done. The
//! caller asks the questions and does what is asked.

use vstd::prelude::*;
use crate::config::{
    FavConfig, GlobalDefaults, default_bbdown_url_text, path_join, windows_join,
    DEFAULT_POLL_INTERVAL_MS,
};
use crate::csv_utils::{CsvRow, texts};
use crate::errors::join2;
use crate::export::{ExportOptions, ExportResult};
use crate::inventory::{
    diff_new_entries, extract_bvid_from_row, find_missing_videos, row_bvid, row_ids, row_views,
    rows_outside,
};
use crate::menu::MenuOutcome;
use crate::text::{
    decimal_digits, lowercase, parse_unsigned, push_decimal, split_words, str_eq, to_lowercase,
    trim, trimmed, unsigned_of, words,
};

verus! {

/// The identifier of a row of the ledger, if it has one.
pub fn extract_bvid(row: &CsvRow) -> (r: Option<String>)
    ensures
        match r {
            Some(id) => row_bvid(row@) == Some(id@),
            None => row_bvid(row@) is None,
        },
{
    extract_bvid_from_row(row)
}

/// An answer that may be left out: trimmed, and none where it is blank.
pub open spec fn optional_of(input: Seq<char>) -> Option<Seq<char>> {
    if trimmed(input).len() == 0 {
        None
    } else {
        Some(trimmed(input))
    }
}

/// An answer that may be left out: trimmed, and none where it is blank.
pub fn normalize_optional(input: &str) -> (r: Option<String>)
    ensures
        match r {
            Some(value) => optional_of(input@) == Some(value@),
            None => optional_of(input@) is None,
        },
{
    let value = trim(input);
    if value.as_str().unicode_len() == 0 {
        None
    } else {
        Some(value)
    }
}

/// What an answer to a question of yes or no means: `y`, `yes` and `true`
/// mean yes, `n`, `no` and `false` mean no, in any case of the letters and
/// with white space around them; anything else is the default.
pub open spec fn bool_of(input: Seq<char>, default: bool) -> bool {
    let word = lowercase(trimmed(input));
    if word == "y"@ || word == "yes"@ || word == "true"@ {
        true
    } else if word == "n"@ || word == "no"@ || word == "false"@ {
        false
    } else {
        default
    }
}

/// What an answer to a question of yes or no means.
pub fn parse_bool_input(input: &str, default: bool) -> (b: bool)
    ensures
        b == bool_of(input@, default),
{
    let cleaned = trim(input);
    let word = to_lowercase(cleaned.as_str());
    let w = word.as_str();
    if str_eq(w, "y") || str_eq(w, "yes") || str_eq(w, "true") {
        true
    } else if str_eq(w, "n") || str_eq(w, "no") || str_eq(w, "false") {
        false
    } else {
        default
    }
}

/// The arguments that a line holds: its words.
pub fn parse_args(input: &str) -> (r: Vec<String>)
    ensures
        texts(r@) == words(input@),
{
    split_words(input)
}

/// An answer with a default: the answer trimmed; where it is blank, the
/// preferred value, failing that the fallback.
pub open spec fn string_or_default(
    input: Seq<char>,
    preferred: Option<Seq<char>>,
    fallback: Seq<char>,
) -> Seq<char> {
    if trimmed(input).len() > 0 {
        trimmed(input)
    } else {
        match preferred {
            Some(value) => value,
            None => fallback,
        }
    }
}

/// An answer with a default.
pub fn resolve_string_with_default(input: &str, preferred: Option<&String>, fallback: &str) -> (r:
    String)
    ensures
        r@ == string_or_default(
            input@,
            match preferred {
                Some(value) => Some(value@),
                None => None,
            },
            fallback@,
        ),
{
    let value = trim(input);
    if value.as_str().unicode_len() == 0 {
        match preferred {
            Some(p) => p.clone(),
            None => fallback.to_owned(),
        }
    } else {
        value
    }
}

/// An answer that may be left out, with a default: the preferred value
/// where the answer is blank, nothing where it is a hyphen, else the
/// answer trimmed.
pub open spec fn optional_or_default(input: Seq<char>, preferred: Option<Seq<char>>) -> Option<
    Seq<char>,
> {
    if trimmed(input).len() == 0 {
        preferred
    } else if trimmed(input) == "-"@ {
        None
    } else {
        Some(trimmed(input))
    }
}

/// The text of a string that may be absent.
pub open spec fn opt_text(value: Option<String>) -> Option<Seq<char>> {
    match value {
        Some(v) => Some(v@),
        None => None,
    }
}

/// An answer that may be left out, with a default.
pub fn resolve_optional_with_default(input: &str, preferred: Option<&String>) -> (r: Option<String>)
    ensures
        opt_text(r) == optional_or_default(
            input@,
            match preferred {
                Some(value) => Some(value@),
                None => None,
            },
        ),
{
    let value = trim(input);
    if value.as_str().unicode_len() == 0 {
        match preferred {
            Some(p) => Some(p.clone()),
            None => None,
        }
    } else if str_eq(value.as_str(), "-") {
        None
    } else {
        Some(value)
    }
}

/// A count out of an answer: the number that the answer writes, trimmed,
/// or `fallback` where it writes none that fits; at least `floor`.
pub open spec fn count_of(input: Seq<char>, max: u64, fallback: u64, floor: u64) -> u64 {
    let number = match unsigned_of(trimmed(input), max) {
        Some(n) => n,
        None => fallback,
    };
    if number >= floor {
        number
    } else {
        floor
    }
}

/// A count out of an answer, at most `max`.
pub fn parse_count(input: &str, max: u64, fallback: u64, floor: u64) -> (n: u64)
    ensures
        n == count_of(input@, max, fallback, floor),
        fallback <= max && floor <= max ==> n <= max,
{
    let cleaned = trim(input);
    let number = match parse_unsigned(cleaned.as_str(), max) {
        Some(n) => n,
        None => fallback,
    };
    if number >= floor {
        number
    } else {
        floor
    }
}

/// What the main menu asks for.
#[derive(Debug, Clone, Copy, PartialEq, Eq)]
pub enum MainAction {
    NewConfig,
    UseConfig,
    EditDefaults,
    Exit,
}

/// What the way in which the main menu ended asks for: its first three
/// lines their actions, anything else the end of the program.
pub fn main_menu(outcome: MenuOutcome) -> (action: MainAction)
    ensures
        action == match outcome {
            MenuOutcome::Selected(k) => if k == 0 {
                MainAction::NewConfig
            } else if k == 1 {
                MainAction::UseConfig
            } else if k == 2 {
                MainAction::EditDefaults
            } else {
                MainAction::Exit
            },
            MenuOutcome::Esc => MainAction::Exit,
        },
{
    match outcome {
        MenuOutcome::Selected(k) => {
            if k == 0 {
                MainAction::NewConfig
            } else if k == 1 {
                MainAction::UseConfig
            } else if k == 2 {
                MainAction::EditDefaults
            } else {
                MainAction::Exit
            }
        },
        MenuOutcome::Esc => MainAction::Exit,
    }
}

/// What the menu of a configuration asks for.
#[derive(Debug, Clone, Copy, PartialEq, Eq)]
pub enum ConfigAction {
    Edit,
    CheckUpdate,
    CheckMissing,
    Back,
}

/// What the way in which the menu of a configuration ended asks for: its
/// first three lines their actions, anything else the way back.
pub fn handle_config_actions(outcome: MenuOutcome) -> (action: ConfigAction)
    ensures
        action == match outcome {
            MenuOutcome::Selected(k) => if k == 0 {
                ConfigAction::Edit
            } else if k == 1 {
                ConfigAction::CheckUpdate
            } else if k == 2 {
                ConfigAction::CheckMissing
            } else {
                ConfigAction::Back
            },
            MenuOutcome::Esc => ConfigAction::Back,
        },
{
    match outcome {
        MenuOutcome::Selected(k) => {
            if k == 0 {
                ConfigAction::Edit
            } else if k == 1 {
                ConfigAction::CheckUpdate
            } else if k == 2 {
                ConfigAction::CheckMissing
            } else {
                ConfigAction::Back
            }
        },
        MenuOutcome::Esc => ConfigAction::Back,
    }
}

/// The line that stands for a configuration in the list of them: its name,
/// or `收藏夹` and its number from 1 where it has none, then the folder's
/// link.
pub open spec fn label_of(index: usize, config: FavConfig) -> Seq<char> {
    let title = match config.name {
        Some(name) if name@.len() > 0 => name@,
        _ => "收藏夹 "@ + decimal_digits(index as nat + 1),
    };
    title + " -> "@ + config.fav_url@
}

/// The line that stands for the configuration at `index` in the list.
pub fn config_label(index: usize, config: &FavConfig) -> (label: String)
    requires
        index < usize::MAX,
    ensures
        label@ == label_of(index, *config),
{
    let named = match &config.name {
        Some(name) => name.as_str().unicode_len() > 0,
        None => false,
    };
    let mut label = if named {
        match &config.name {
            Some(name) => name.clone(),
            None => String::new(),
        }
    } else {
        let mut title = "收藏夹 ".to_owned();
        push_decimal(&mut title, (index + 1) as u64);
        title
    };
    label.append(" -> ");
    label.append(config.fav_url.as_str());
    label
}

/// The name of the ledger that an export at the moment `timestamp` makes.
pub fn ledger_file_name(timestamp: &str) -> (name: String)
    ensures
        name@ == timestamp@ + "-favlist.csv"@,
{
    join2(timestamp, "-favlist.csv")
}

/// The identifiers of the rows that have one, in the rows' order.
pub open spec fn ids_in_order(rows: Seq<Map<Seq<char>, Seq<char>>>) -> Seq<Seq<char>>
    decreases rows.len(),
{
    if rows.len() == 0 {
        Seq::empty()
    } else {
        let before = ids_in_order(rows.drop_last());
        match row_bvid(rows.last()) {
            Some(id) => before.push(id),
            None => before,
        }
    }
}

/// The identifiers of the rows that have one, in the rows' order.
pub fn bvids_of(rows: &Vec<CsvRow>) -> (ids: Vec<String>)
    ensures
        texts(ids@) == ids_in_order(row_views(rows@)),
{
    let mut ids: Vec<String> = Vec::new();
    let mut i: usize = 0;
    let ghost all = row_views(rows@);
    proof {
        assert(all.take(0) =~= Seq::<Map<Seq<char>, Seq<char>>>::empty());
        assert(texts(ids@) =~= Seq::<Seq<char>>::empty());
    }
    while i < rows.len()
        invariant
            i <= rows@.len(),
            all == row_views(rows@),
            texts(ids@) == ids_in_order(all.take(i as int)),
        decreases rows@.len() - i,
    {
        let ghost before = texts(ids@);
        proof {
            assert(all.take(i + 1).drop_last() =~= all.take(i as int));
            assert(all.take(i + 1).last() == rows@[i as int]@);
        }
        match extract_bvid(&rows[i]) {
            Some(id) => {
                let ghost text = id@;
                ids.push(id);
                proof {
                    assert(texts(ids@) =~= before.push(text));
                }
            },
            None => {},
        }
        i += 1;
    }
    proof {
        assert(all.take(rows@.len() as int) =~= all);
    }
    ids
}

/// What a check for updates asks to be fetched: the identifiers of the
/// rows of the new ledger that the old one lacks, in their order.
pub fn check_update(old_rows: &Vec<CsvRow>, new_rows: &Vec<CsvRow>) -> (ids: Vec<String>)
    ensures
        texts(ids@) == ids_in_order(rows_outside(new_rows@, row_ids(old_rows@))),
{
    let diffs = diff_new_entries(old_rows, new_rows);
    bvids_of(&diffs)
}

/// What a check for missing videos asks to be done.
#[derive(Debug)]
pub enum MissingPlan {
    /// Nothing: every video of the ledger is there.
    NothingMissing,
    /// Nothing, though rows are missing: none of them has an identifier.
    NoIdentifiers,
    /// Only to show these lines.
    DryRun(Vec<String>),
    /// To give the download server these tasks and to wait for them.
    Submit(MissingTasks),
}

/// The tasks of a check for missing videos, and where to send them.
#[derive(Debug)]
pub struct MissingTasks {
    pub bvids: Vec<String>,
    pub serve_url: String,
    pub auto_launch: bool,
    pub launch_args: Vec<String>,
    pub file_pattern: Option<String>,
    pub multi_file_pattern: Option<String>,
    pub poll_interval_ms: u64,
}

/// The line that a dry run shows for one task.
pub open spec fn dry_run_task_line(serve_url: Seq<char>, bvid: Seq<char>) -> Seq<char> {
    "[dry-run] POST "@ + serve_url + "/add-task { Url: \""@ + bvid + "\" }"@
}

/// The lines that a dry run shows: the address of the server, the
/// patterns that are set, and a line for each task.
pub open spec fn dry_run_lines(
    serve_url: Seq<char>,
    file_pattern: Option<Seq<char>>,
    multi_file_pattern: Option<Seq<char>>,
    ids: Seq<Seq<char>>,
) -> Seq<Seq<char>> {
    seq!["目标服务："@ + serve_url] + (match file_pattern {
        Some(pattern) => seq!["FilePattern: "@ + pattern],
        None => Seq::empty(),
    }) + (match multi_file_pattern {
        Some(pattern) => seq!["MultiFilePattern: "@ + pattern],
        None => Seq::empty(),
    }) + Seq::new(ids.len(), |k: int| dry_run_task_line(serve_url, ids[k]))
}

/// The lines that a dry run shows for the tasks `bvids`.
pub fn dry_run_plan(
    serve_url: &str,
    file_pattern: Option<&str>,
    multi_file_pattern: Option<&str>,
    bvids: &Vec<String>,
) -> (lines: Vec<String>)
    ensures
        texts(lines@) == dry_run_lines(
            serve_url@,
            match file_pattern {
                Some(p) => Some(p@),
                None => None,
            },
            match multi_file_pattern {
                Some(p) => Some(p@),
                None => None,
            },
            texts(bvids@),
        ),
{
    let mut lines: Vec<String> = Vec::new();
    lines.push(join2("目标服务：", serve_url));
    match file_pattern {
        Some(pattern) => {
            lines.push(join2("FilePattern: ", pattern));
        },
        None => {},
    }
    match multi_file_pattern {
        Some(pattern) => {
            lines.push(join2("MultiFilePattern: ", pattern));
        },
        None => {},
    }
    let ghost head = texts(lines@);
    let ghost ids = texts(bvids@);
    let mut i: usize = 0;
    proof {
        assert(head =~= (seq!["目标服务："@ + serve_url@] + (match file_pattern {
            Some(pattern) => seq!["FilePattern: "@ + pattern@],
            None => Seq::empty(),
        }) + (match multi_file_pattern {
            Some(pattern) => seq!["MultiFilePattern: "@ + pattern@],
            None => Seq::empty(),
        })));
        assert(texts(lines@) =~= head + Seq::new(0, |k: int| dry_run_task_line(serve_url@, ids[k])));
    }
    while i < bvids.len()
        invariant
            i <= bvids@.len(),
            ids == texts(bvids@),
            texts(lines@) == head + Seq::new(
                i as nat,
                |k: int| dry_run_task_line(serve_url@, ids[k]),
            ),
        decreases bvids@.len() - i,
    {
        let ghost before = texts(lines@);
        let mut line = join2("[dry-run] POST ", serve_url);
        line.append("/add-task { Url: \"");
        line.append(bvids[i].as_str());
        line.append("\" }");
        lines.push(line);
        proof {
            assert(texts(lines@) =~= before.push(dry_run_task_line(serve_url@, ids[i as int])));
            assert(texts(lines@) =~= head + Seq::new(
                (i + 1) as nat,
                |k: int| dry_run_task_line(serve_url@, ids[k]),
            ));
        }
        i += 1;
    }
    lines
}

/// What a check for missing videos asks to be done: nothing where no row
/// of the ledger lacks its video in the directory (`existing_bvids` are
/// the identifiers found there); in a dry run only to show the lines of
/// `dry_run_plan`; else a task for each missing identifier, in the rows'
/// order, with the patterns as they stand inside the download directory.
pub fn check_missing(
    config: &FavConfig,
    csv_rows: &Vec<CsvRow>,
    existing_bvids: &Vec<String>,
    dry_run: bool,
) -> (plan: MissingPlan)
    ensures
        ({
            let missing = rows_outside(csv_rows@, texts(existing_bvids@).to_set());
            let ids = ids_in_order(missing);
            if missing.len() == 0 {
                plan is NothingMissing
            } else if ids.len() == 0 {
                plan is NoIdentifiers
            } else if dry_run {
                plan matches MissingPlan::DryRun(lines) && exists|
                    file_pattern: Option<Seq<char>>,
                    multi_file_pattern: Option<Seq<char>>,
                |
                    #![trigger dry_run_lines(config.bbdown_serve_url@, file_pattern, multi_file_pattern, ids)]
                    {
                        &&& file_pattern is Some == config.file_pattern is Some
                        &&& multi_file_pattern is Some == config.multi_file_pattern is Some
                        &&& config.api_download_dir@.contains(':') ==> {
                            &&& config.file_pattern matches Some(p) ==> file_pattern == Some(
                                windows_join(config.api_download_dir@, p@),
                            )
                            &&& config.multi_file_pattern matches Some(p) ==> multi_file_pattern
                                == Some(windows_join(config.api_download_dir@, p@))
                        }
                        &&& texts(lines@) == dry_run_lines(
                            config.bbdown_serve_url@,
                            file_pattern,
                            multi_file_pattern,
                            ids,
                        )
                    }
            } else {
                plan matches MissingPlan::Submit(tasks) && {
                    &&& texts(tasks.bvids@) == ids
                    &&& tasks.serve_url@ == config.bbdown_serve_url@
                    &&& tasks.auto_launch == config.bbdown_auto_launch
                    &&& tasks.launch_args@ == config.bbdown_launch_args@
                    &&& tasks.file_pattern is Some == config.file_pattern is Some
                    &&& tasks.multi_file_pattern is Some == config.multi_file_pattern is Some
                    &&& config.api_download_dir@.contains(':') ==> {
                        &&& config.file_pattern matches Some(p) ==> opt_text(tasks.file_pattern)
                            == Some(windows_join(config.api_download_dir@, p@))
                        &&& config.multi_file_pattern matches Some(p) ==> opt_text(
                            tasks.multi_file_pattern,
                        ) == Some(windows_join(config.api_download_dir@, p@))
                    }
                    &&& tasks.poll_interval_ms == (if config.bbdown_poll_interval_ms >= 50 {
                        config.bbdown_poll_interval_ms
                    } else {
                        50
                    })
                }
            }
        }),
{
    let missing_rows = find_missing_videos(csv_rows, existing_bvids);
    if missing_rows.len() == 0 {
        proof {
            assert(row_views(missing_rows@).len() == 0);
        }
        return MissingPlan::NothingMissing;
    }
    proof {
        assert(row_views(missing_rows@).len() == missing_rows@.len());
    }
    let bvids = bvids_of(&missing_rows);
    if bvids.len() == 0 {
        proof {
            assert(texts(bvids@).len() == 0);
        }
        return MissingPlan::NoIdentifiers;
    }
    proof {
        assert(texts(bvids@).len() == bvids@.len());
    }
    let file_pattern = config.resolve_file_pattern();
    let multi_file_pattern = config.resolve_multi_file_pattern();
    let serve_url = config.effective_serve_url();
    if dry_run {
        let shown_pattern: Option<&str> = match &file_pattern {
            Some(pattern) => Some(pattern.as_str()),
            None => None,
        };
        let shown_multi: Option<&str> = match &multi_file_pattern {
            Some(pattern) => Some(pattern.as_str()),
            None => None,
        };
        let lines = dry_run_plan(serve_url, shown_pattern, shown_multi, &bvids);
        proof {
            let fp = opt_text(file_pattern);
            let mp = opt_text(multi_file_pattern);
            assert(texts(lines@) == dry_run_lines(
                config.bbdown_serve_url@,
                fp,
                mp,
                texts(bvids@),
            ));
        }
        return MissingPlan::DryRun(lines);
    }
    MissingPlan::Submit(
        MissingTasks {
            bvids,
            serve_url: serve_url.to_owned(),
            auto_launch: config.bbdown_auto_launch,
            launch_args: config.bbdown_launch_args.clone(),
            file_pattern,
            multi_file_pattern,
            poll_interval_ms: config.poll_interval(),
        },
    )
}

/// The options of the export that a check for updates makes for a
/// configuration, into the ledger at `csv_path`, at the moment
/// `timestamp`.
pub fn update_export_options(config: &FavConfig, csv_path: &str, timestamp: &str) -> (options:
    ExportOptions)
    ensures
        options.fav_url@ == config.fav_url@,
        options.csv_path@ == csv_path@,
        options.encoding@ == config.encoding@,
        options.page_size == config.page_size,
        opt_text(options.cookie) == opt_text(config.cookie),
        options.timeout_secs == config.timeout_secs,
        opt_text(options.timestamp) == Some(timestamp@),
        options.extra_headers@.len() == 0,
        options.base_url is None,
{
    ExportOptions {
        fav_url: config.fav_url.clone(),
        csv_path: csv_path.to_owned(),
        encoding: config.encoding.clone(),
        page_size: config.page_size,
        cookie: config.cookie.clone(),
        timeout_secs: config.timeout_secs,
        timestamp: Some(timestamp.to_owned()),
        extra_headers: Vec::new(),
        base_url: None,
    }
}

/// The configuration after an export: its ledger is the one that the
/// export wrote, and the moment of the export is that of its last
/// synchronisation.
pub fn synced_config(config: FavConfig, result: &ExportResult) -> (r: FavConfig)
    ensures
        r.csv_path@ == result.csv_path@,
        opt_text(r.last_synced_at) == Some(result.timestamp@),
        r.fav_url == config.fav_url,
        r.api_download_dir == config.api_download_dir,
        r.scan_download_dir == config.scan_download_dir,
        r.encoding == config.encoding,
        r.page_size == config.page_size,
        r.cookie == config.cookie,
        r.timeout_secs == config.timeout_secs,
        r.name == config.name,
        r.bbdown_serve_url == config.bbdown_serve_url,
        r.bbdown_auto_launch == config.bbdown_auto_launch,
        r.bbdown_launch_args == config.bbdown_launch_args,
        r.bbdown_poll_interval_ms == config.bbdown_poll_interval_ms,
        r.file_pattern == config.file_pattern,
        r.multi_file_pattern == config.multi_file_pattern,
{
    let mut r = config;
    r.csv_path = result.csv_path.clone();
    r.last_synced_at = Some(result.timestamp.clone());
    r
}


/// A count out of an answer that is taken as it stands: the number that it
/// writes, or `fallback` where it writes none that fits; at least `floor`.
pub open spec fn exact_count_of(input: Seq<char>, max: u64, fallback: u64, floor: u64) -> u64 {
    let number = match unsigned_of(input, max) {
        Some(n) => n,
        None => fallback,
    };
    if number >= floor {
        number
    } else {
        floor
    }
}

/// A count out of an answer that is taken as it stands, at most `max`.
fn parse_exact_count(input: &str, max: u64, fallback: u64, floor: u64) -> (n: u64)
    ensures
        n == exact_count_of(input@, max, fallback, floor),
        fallback <= max && floor <= max ==> n <= max,
{
    let number = match parse_unsigned(input, max) {
        Some(n) => n,
        None => fallback,
    };
    if number >= floor {
        number
    } else {
        floor
    }
}

/// A text after an answer: the answer, or what was there where the answer
/// is empty.
pub open spec fn kept_or(input: Seq<char>, current: Seq<char>) -> Seq<char> {
    if input.len() > 0 {
        input
    } else {
        current
    }
}

/// The answer, or what was there where the answer is empty.
fn keep_or_set(input: &str, current: String) -> (r: String)
    ensures
        r@ == kept_or(input@, current@),
{
    if input.unicode_len() > 0 {
        input.to_owned()
    } else {
        current
    }
}

/// A text that may be absent, after an answer: absent where the answer is
/// a hyphen, the answer where it is not empty, else what was there.
pub open spec fn option_after(input: Seq<char>, current: Option<Seq<char>>) -> Option<Seq<char>> {
    if input == "-"@ {
        None
    } else if input.len() > 0 {
        Some(input)
    } else {
        current
    }
}

/// A text that may be absent, after an answer.
fn edit_option(input: &str, current: Option<String>) -> (r: Option<String>)
    ensures
        opt_text(r) == option_after(input@, opt_text(current)),
{
    if str_eq(input, "-") {
        None
    } else if input.unicode_len() > 0 {
        Some(input.to_owned())
    } else {
        current
    }
}

/// A text that may be absent, after an answer that is trimmed: absent
/// where the answer is a hyphen, the answer trimmed where that is not
/// empty, else what was there.
pub open spec fn trimmed_option_after(input: Seq<char>, current: Option<Seq<char>>) -> Option<
    Seq<char>,
> {
    if input == "-"@ {
        None
    } else if trimmed(input).len() > 0 {
        Some(trimmed(input))
    } else {
        current
    }
}

/// A text that may be absent, after an answer that is trimmed.
fn edit_trimmed_option(input: &str, current: Option<String>) -> (r: Option<String>)
    ensures
        opt_text(r) == trimmed_option_after(input@, opt_text(current)),
{
    if str_eq(input, "-") {
        return None;
    }
    let value = trim(input);
    if value.as_str().unicode_len() > 0 {
        Some(value)
    } else {
        current
    }
}

/// The answers to the questions that edit a configuration, each as it was
/// read.
#[derive(Debug, Clone)]
pub struct EditAnswers {
    pub api_download_dir: String,
    pub scan_download_dir: String,
    pub fav_url: String,
    pub csv_path: String,
    pub encoding: String,
    pub page_size: String,
    pub timeout_secs: String,
    pub cookie: String,
    pub name: String,
    pub bbdown_serve_url: String,
    pub bbdown_auto_launch: String,
    pub bbdown_launch_args: String,
    pub bbdown_poll_interval_ms: String,
    pub file_pattern: String,
    pub multi_file_pattern: String,
}

/// The configuration after the answers `answers`. An empty answer leaves
/// what was there; a hyphen removes what may be absent; a count that is
/// no number stays what it was, and is at least 1, the pause at least 50.
pub fn edit_config(config: FavConfig, answers: &EditAnswers) -> (r: FavConfig)
    ensures
        r.api_download_dir@ == kept_or(answers.api_download_dir@, config.api_download_dir@),
        opt_text(r.scan_download_dir) == if answers.scan_download_dir@.len() > 0 {
            Some(answers.scan_download_dir@)
        } else {
            opt_text(config.scan_download_dir)
        },
        r.fav_url@ == kept_or(answers.fav_url@, config.fav_url@),
        r.csv_path@ == kept_or(answers.csv_path@, config.csv_path@),
        r.encoding@ == kept_or(answers.encoding@, config.encoding@),
        r.page_size == if answers.page_size@.len() > 0 {
            exact_count_of(answers.page_size@, u32::MAX as u64, config.page_size as u64, 1)
        } else {
            config.page_size as u64
        },
        r.timeout_secs == if answers.timeout_secs@.len() > 0 {
            exact_count_of(answers.timeout_secs@, u64::MAX, config.timeout_secs, 1)
        } else {
            config.timeout_secs
        },
        opt_text(r.cookie) == option_after(answers.cookie@, opt_text(config.cookie)),
        opt_text(r.name) == option_after(answers.name@, opt_text(config.name)),
        r.bbdown_serve_url@ == kept_or(trimmed(answers.bbdown_serve_url@), config.bbdown_serve_url@),
        r.bbdown_auto_launch == bool_of(answers.bbdown_auto_launch@, config.bbdown_auto_launch),
        texts(r.bbdown_launch_args@) == if answers.bbdown_launch_args@ == "-"@ {
            Seq::<Seq<char>>::empty()
        } else if trimmed(answers.bbdown_launch_args@).len() > 0 {
            words(answers.bbdown_launch_args@)
        } else {
            texts(config.bbdown_launch_args@)
        },
        r.bbdown_poll_interval_ms == if trimmed(answers.bbdown_poll_interval_ms@).len() > 0 {
            count_of(answers.bbdown_poll_interval_ms@, u64::MAX, config.bbdown_poll_interval_ms, 50)
        } else {
            config.bbdown_poll_interval_ms
        },
        opt_text(r.file_pattern) == trimmed_option_after(
            answers.file_pattern@,
            opt_text(config.file_pattern),
        ),
        opt_text(r.multi_file_pattern) == trimmed_option_after(
            answers.multi_file_pattern@,
            opt_text(config.multi_file_pattern),
        ),
        r.last_synced_at == config.last_synced_at,
{
    let serve_url = trim(answers.bbdown_serve_url.as_str());
    let page_size = if answers.page_size.as_str().unicode_len() > 0 {
        parse_exact_count(answers.page_size.as_str(), 0xFFFF_FFFF, config.page_size as u64, 1) as u32
    } else {
        config.page_size
    };
    let timeout_secs = if answers.timeout_secs.as_str().unicode_len() > 0 {
        parse_exact_count(
            answers.timeout_secs.as_str(),
            0xFFFF_FFFF_FFFF_FFFF,
            config.timeout_secs,
            1,
        )
    } else {
        config.timeout_secs
    };
    let launch_trimmed = trim(answers.bbdown_launch_args.as_str());
    let bbdown_launch_args = if str_eq(answers.bbdown_launch_args.as_str(), "-") {
        let none: Vec<String> = Vec::new();
        proof {
            assert(texts(none@) =~= Seq::<Seq<char>>::empty());
        }
        none
    } else if launch_trimmed.as_str().unicode_len() > 0 {
        parse_args(answers.bbdown_launch_args.as_str())
    } else {
        config.bbdown_launch_args
    };
    let poll_trimmed = trim(answers.bbdown_poll_interval_ms.as_str());
    let bbdown_poll_interval_ms = if poll_trimmed.as_str().unicode_len() > 0 {
        parse_count(
            answers.bbdown_poll_interval_ms.as_str(),
            0xFFFF_FFFF_FFFF_FFFF,
            config.bbdown_poll_interval_ms,
            50,
        )
    } else {
        config.bbdown_poll_interval_ms
    };
    FavConfig {
        fav_url: keep_or_set(answers.fav_url.as_str(), config.fav_url),
        api_download_dir: keep_or_set(answers.api_download_dir.as_str(), config.api_download_dir),
        scan_download_dir: if answers.scan_download_dir.as_str().unicode_len() > 0 {
            Some(answers.scan_download_dir.clone())
        } else {
            config.scan_download_dir
        },
        csv_path: keep_or_set(answers.csv_path.as_str(), config.csv_path),
        encoding: keep_or_set(answers.encoding.as_str(), config.encoding),
        page_size,
        cookie: edit_option(answers.cookie.as_str(), config.cookie),
        timeout_secs,
        last_synced_at: config.last_synced_at,
        name: edit_option(answers.name.as_str(), config.name),
        bbdown_serve_url: keep_or_set(serve_url.as_str(), config.bbdown_serve_url),
        bbdown_auto_launch: parse_bool_input(
            answers.bbdown_auto_launch.as_str(),
            config.bbdown_auto_launch,
        ),
        bbdown_launch_args,
        bbdown_poll_interval_ms,
        file_pattern: edit_trimmed_option(answers.file_pattern.as_str(), config.file_pattern),
        multi_file_pattern: edit_trimmed_option(
            answers.multi_file_pattern.as_str(),
            config.multi_file_pattern,
        ),
    }
}

/// A default after an answer: what was there where the answer is blank,
/// nothing where it is a hyphen, else the answer trimmed.
fn update_default(input: &str, snapshot: Option<String>) -> (r: Option<String>)
    ensures
        opt_text(r) == optional_or_default(input@, opt_text(snapshot)),
{
    let value = trim(input);
    if value.as_str().unicode_len() == 0 {
        snapshot
    } else if str_eq(value.as_str(), "-") {
        None
    } else {
        Some(value)
    }
}

/// The answers to the questions that set the defaults, each as it was
/// read.
#[derive(Debug, Clone)]
pub struct DefaultsAnswers {
    pub api_download_dir: String,
    pub scan_download_dir: String,
    pub bbdown_serve_url: String,
    pub file_pattern: String,
    pub multi_file_pattern: String,
}

/// The defaults after the answers `answers`: a blank answer leaves what
/// was there (for the server's address, the usual one where nothing was
/// there), a hyphen removes it, anything else replaces it.
pub fn handle_global_defaults(snapshot: GlobalDefaults, answers: &DefaultsAnswers) -> (r:
    GlobalDefaults)
    ensures
        opt_text(r.api_download_dir) == optional_or_default(
            answers.api_download_dir@,
            opt_text(snapshot.api_download_dir),
        ),
        opt_text(r.scan_download_dir) == optional_or_default(
            answers.scan_download_dir@,
            opt_text(snapshot.scan_download_dir),
        ),
        opt_text(r.bbdown_serve_url) == optional_or_default(
            answers.bbdown_serve_url@,
            match snapshot.bbdown_serve_url {
                Some(url) => Some(url@),
                None => Some(default_bbdown_url_text()),
            },
        ),
        opt_text(r.file_pattern) == optional_or_default(
            answers.file_pattern@,
            opt_text(snapshot.file_pattern),
        ),
        opt_text(r.multi_file_pattern) == optional_or_default(
            answers.multi_file_pattern@,
            opt_text(snapshot.multi_file_pattern),
        ),
{
    let serve_before = match snapshot.bbdown_serve_url {
        Some(url) => Some(url),
        None => Some("http://localhost:23333".to_owned()),
    };
    GlobalDefaults {
        api_download_dir: update_default(
            answers.api_download_dir.as_str(),
            snapshot.api_download_dir,
        ),
        scan_download_dir: update_default(
            answers.scan_download_dir.as_str(),
            snapshot.scan_download_dir,
        ),
        bbdown_serve_url: update_default(answers.bbdown_serve_url.as_str(), serve_before),
        file_pattern: update_default(answers.file_pattern.as_str(), snapshot.file_pattern),
        multi_file_pattern: update_default(
            answers.multi_file_pattern.as_str(),
            snapshot.multi_file_pattern,
        ),
    }
}

/// The answers to the questions that take in a new folder, each as it was
/// read.
#[derive(Debug, Clone)]
pub struct NewConfigAnswers {
    pub fav_url: String,
    pub api_download_dir: String,
    pub scan_download_dir: String,
    pub encoding: String,
    pub page_size: String,
    pub timeout_secs: String,
    pub cookie: String,
    pub name: String,
    pub file_pattern: String,
    pub multi_file_pattern: String,
    pub bbdown_serve_url: String,
    pub bbdown_auto_launch: String,
    pub bbdown_launch_args: String,
    pub bbdown_poll_interval_ms: String,
}

/// A new folder's configuration, and the options of its first export.
#[derive(Debug)]
pub struct NewConfigPlan {
    pub config: FavConfig,
    pub options: ExportOptions,
}

/// The directory that a question about a directory offers: the default
/// that is set, else the directory in which the program runs.
pub open spec fn offered_dir(default: Option<String>, env_dir: Seq<char>) -> Seq<char> {
    match default {
        Some(dir) => dir@,
        None => env_dir,
    }
}

/// The configuration of a new folder out of the answers `answers`, and
/// the options of its first export, at the moment `timestamp`. Nothing
/// where the link of the folder is blank. A blank answer takes the default
/// that is set, failing that the directory `env_dir` for a directory,
/// `utf-8` for the encoding, 40 for the page size, 10 for the timeout,
/// the usual address for the server, yes for its start, 500 for the
/// pause. The ledger is named after the moment and stands in the
/// directory of the scan.
pub fn handle_new_config(
    answers: &NewConfigAnswers,
    defaults: &GlobalDefaults,
    env_dir: &str,
    timestamp: &str,
) -> (r: Option<NewConfigPlan>)
    ensures
        r is None == (trimmed(answers.fav_url@).len() == 0),
        r matches Some(plan) ==> {
            &&& plan.config.fav_url@ == answers.fav_url@
            &&& plan.config.api_download_dir@ == string_or_default(
                answers.api_download_dir@,
                opt_text(defaults.api_download_dir),
                offered_dir(defaults.api_download_dir, env_dir@),
            )
            &&& opt_text(plan.config.scan_download_dir) == Some(
                string_or_default(
                    answers.scan_download_dir@,
                    opt_text(defaults.scan_download_dir),
                    offered_dir(defaults.scan_download_dir, env_dir@),
                ),
            )
            &&& plan.config.encoding@ == string_or_default(answers.encoding@, None, "utf-8"@)
            &&& plan.config.page_size == count_of(answers.page_size@, u32::MAX as u64, 40, 1)
            &&& plan.config.timeout_secs == count_of(answers.timeout_secs@, u64::MAX, 10, 1)
            &&& opt_text(plan.config.cookie) == optional_of(answers.cookie@)
            &&& opt_text(plan.config.name) == optional_of(answers.name@)
            &&& opt_text(plan.config.file_pattern) == optional_or_default(
                answers.file_pattern@,
                opt_text(defaults.file_pattern),
            )
            &&& opt_text(plan.config.multi_file_pattern) == optional_or_default(
                answers.multi_file_pattern@,
                opt_text(defaults.multi_file_pattern),
            )
            &&& plan.config.bbdown_serve_url@ == string_or_default(
                answers.bbdown_serve_url@,
                opt_text(defaults.bbdown_serve_url),
                default_bbdown_url_text(),
            )
            &&& plan.config.bbdown_auto_launch == bool_of(answers.bbdown_auto_launch@, true)
            &&& texts(plan.config.bbdown_launch_args@) == words(answers.bbdown_launch_args@)
            &&& plan.config.bbdown_poll_interval_ms == count_of(
                answers.bbdown_poll_interval_ms@,
                u64::MAX,
                DEFAULT_POLL_INTERVAL_MS,
                50,
            )
            &&& plan.config.last_synced_at is None
            &&& plan.options.fav_url@ == answers.fav_url@
            &&& plan.options.csv_path@ == plan.config.csv_path@
            &&& plan.options.encoding@ == plan.config.encoding@
            &&& plan.options.page_size == plan.config.page_size
            &&& opt_text(plan.options.cookie) == opt_text(plan.config.cookie)
            &&& plan.options.timeout_secs == plan.config.timeout_secs
            &&& opt_text(plan.options.timestamp) == Some(timestamp@)
            &&& plan.options.extra_headers@.len() == 0
            &&& plan.options.base_url is None
        },
{
    let link = trim(answers.fav_url.as_str());
    if link.as_str().unicode_len() == 0 {
        return None;
    }
    let api_offer: &str = match &defaults.api_download_dir {
        Some(dir) => dir.as_str(),
        None => env_dir,
    };
    let api_download_dir = resolve_string_with_default(
        answers.api_download_dir.as_str(),
        defaults.api_download_dir.as_ref(),
        api_offer,
    );
    let scan_offer: &str = match &defaults.scan_download_dir {
        Some(dir) => dir.as_str(),
        None => env_dir,
    };
    let scan_download_dir = resolve_string_with_default(
        answers.scan_download_dir.as_str(),
        defaults.scan_download_dir.as_ref(),
        scan_offer,
    );
    let encoding = resolve_string_with_default(answers.encoding.as_str(), None, "utf-8");
    let page_size = parse_count(answers.page_size.as_str(), 0xFFFF_FFFF, 40, 1) as u32;
    let timeout_secs = parse_count(answers.timeout_secs.as_str(), 0xFFFF_FFFF_FFFF_FFFF, 10, 1);
    let cookie = normalize_optional(answers.cookie.as_str());
    let name = normalize_optional(answers.name.as_str());
    let file_pattern = resolve_optional_with_default(
        answers.file_pattern.as_str(),
        defaults.file_pattern.as_ref(),
    );
    let multi_file_pattern = resolve_optional_with_default(
        answers.multi_file_pattern.as_str(),
        defaults.multi_file_pattern.as_ref(),
    );
    let bbdown_serve_url = resolve_string_with_default(
        answers.bbdown_serve_url.as_str(),
        defaults.bbdown_serve_url.as_ref(),
        "http://localhost:23333",
    );
    let bbdown_auto_launch = parse_bool_input(answers.bbdown_auto_launch.as_str(), true);
    let bbdown_launch_args = parse_args(answers.bbdown_launch_args.as_str());
    let bbdown_poll_interval_ms = parse_count(
        answers.bbdown_poll_interval_ms.as_str(),
        0xFFFF_FFFF_FFFF_FFFF,
        DEFAULT_POLL_INTERVAL_MS,
        50,
    );
    let file_name = ledger_file_name(timestamp);
    let csv_path = path_join(scan_download_dir.as_str(), file_name.as_str());
    let options = ExportOptions {
        fav_url: answers.fav_url.clone(),
        csv_path: csv_path.clone(),
        encoding: encoding.clone(),
        page_size,
        cookie: cookie.clone(),
        timeout_secs,
        timestamp: Some(timestamp.to_owned()),
        extra_headers: Vec::new(),
        base_url: None,
    };
    let config = FavConfig {
        fav_url: answers.fav_url.clone(),
        api_download_dir,
        scan_download_dir: Some(scan_download_dir),
        csv_path,
        encoding,
        page_size,
        cookie,
        timeout_secs,
        last_synced_at: None,
        name,
        bbdown_serve_url,
        bbdown_auto_launch,
        bbdown_launch_args,
        bbdown_poll_interval_ms,
        file_pattern,
        multi_file_pattern,
    };
    Some(NewConfigPlan { config, options })
}

/// The lines that sum up an export for the user: the folder's title, the
/// videos gone through (of how many, where that is known), the number of
/// new entries, and the ledger's path.
pub fn print_summary(result: &ExportResult) -> (lines: Vec<String>)
    ensures
        lines@.len() == 4,
        lines@[0]@ == "收藏夹： "@ + result.folder_info.title@,
        lines@[1]@ == match result.total_count {
            Some(total) => "处理条目： "@ + decimal_digits(result.processed_count as nat) + "/"@
                + decimal_digits(total as nat),
            None => "处理条目： "@ + decimal_digits(result.processed_count as nat),
        },
        lines@[2]@ == "新增条目： "@ + decimal_digits(result.new_entries@.len()),
        lines@[3]@ == "输出文件： "@ + result.csv_path@,
{
    let mut lines: Vec<String> = Vec::new();
    lines.push(join2("收藏夹： ", result.folder_info.title.as_str()));
    let mut processed = "处理条目： ".to_owned();
    push_decimal(&mut processed, result.processed_count);
    match result.total_count {
        Some(total) => {
            processed.append("/");
            push_decimal(&mut processed, total);
        },
        None => {},
    }
    lines.push(processed);
    let mut added = "新增条目： ".to_owned();
    push_decimal(&mut added, result.new_entries.len() as u64);
    lines.push(added);
    lines.push(join2("输出文件： ", result.csv_path.as_str()));
    lines
}

} // verus!
