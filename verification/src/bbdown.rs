//! The download server: the requests that give it work, the reading of
//! its answers, the wait until it has done the work, and the commands that
//! start and stop it. The caller sends the requests, sleeps between two
//! looks at the server, and runs the commands.

use vstd::prelude::*;
use vstd::hash_set::StringHashSet;
use crate::errors::join2;
use crate::text::{
    decimal_digits, decimal_text, lowercase, parse_unsigned, push_decimal, push_quotes_doubled,
    push_signed_decimal, quotes_doubled, strip_trailing, to_lowercase, trim, trim_end_of, trimmed,
    unsigned_of,
};

verus! {

/// A failure in the dealings with the download server.
#[derive(Debug)]
pub enum BbdownError {
    /// A request did not reach the server, or no answer came back.
    Transport(String),
    /// The server refused a task; the text of the answer's status is held.
    TaskSubmissionFailed(String),
    /// The server did not list its running tasks.
    RunningTasksFailed(String),
    /// The server did not list its finished tasks.
    FinishedTasksFailed(String),
    /// The server did not drop its finished tasks.
    RemoveFinishedFailed(String),
    /// The list of running tasks is not what was expected.
    RunningTasksInvalid(String),
    /// The list of finished tasks is not what was expected.
    FinishedTasksInvalid(String),
    /// No task was finished for as long as the wait allows.
    WaitTimedOut,
    /// The server could not be started or stopped, or the download tool
    /// failed.
    ProcessControl(String),
}

/// A `BbdownError` with its texts as sequences of characters.
pub enum BbdownErrorView {
    Transport(Seq<char>),
    TaskSubmissionFailed(Seq<char>),
    RunningTasksFailed(Seq<char>),
    FinishedTasksFailed(Seq<char>),
    RemoveFinishedFailed(Seq<char>),
    RunningTasksInvalid(Seq<char>),
    FinishedTasksInvalid(Seq<char>),
    WaitTimedOut,
    ProcessControl(Seq<char>),
}

impl BbdownErrorView {
    /// The line that the failure shows to a reader.
    pub open spec fn text(self) -> Seq<char> {
        match self {
            BbdownErrorView::Transport(m) => m,
            BbdownErrorView::TaskSubmissionFailed(status) => "添加任务失败，状态码 "@ + status,
            BbdownErrorView::RunningTasksFailed(status) => "获取运行中任务失败，状态码 "@ + status,
            BbdownErrorView::FinishedTasksFailed(status) => "获取已完成任务失败，状态码 "@ + status,
            BbdownErrorView::RemoveFinishedFailed(status) => "移除已完成任务失败，状态码 "@ + status,
            BbdownErrorView::RunningTasksInvalid(m) => "解析运行中任务失败: "@ + m,
            BbdownErrorView::FinishedTasksInvalid(m) => "解析已完成任务失败: "@ + m,
            BbdownErrorView::WaitTimedOut => "等待下载任务超时, 请确认 bbdown serve 状态"@,
            BbdownErrorView::ProcessControl(m) => m,
        }
    }
}

impl View for BbdownError {
    type V = BbdownErrorView;

    open spec fn view(&self) -> BbdownErrorView {
        match self {
            BbdownError::Transport(m) => BbdownErrorView::Transport(m@),
            BbdownError::TaskSubmissionFailed(m) => BbdownErrorView::TaskSubmissionFailed(m@),
            BbdownError::RunningTasksFailed(m) => BbdownErrorView::RunningTasksFailed(m@),
            BbdownError::FinishedTasksFailed(m) => BbdownErrorView::FinishedTasksFailed(m@),
            BbdownError::RemoveFinishedFailed(m) => BbdownErrorView::RemoveFinishedFailed(m@),
            BbdownError::RunningTasksInvalid(m) => BbdownErrorView::RunningTasksInvalid(m@),
            BbdownError::FinishedTasksInvalid(m) => BbdownErrorView::FinishedTasksInvalid(m@),
            BbdownError::WaitTimedOut => BbdownErrorView::WaitTimedOut,
            BbdownError::ProcessControl(m) => BbdownErrorView::ProcessControl(m@),
        }
    }
}

impl BbdownError {
    /// The line that the failure shows to a reader.
    pub fn to_string(&self) -> (r: String)
        ensures
            r@ == self@.text(),
    {
        match self {
            BbdownError::Transport(m) => m.clone(),
            BbdownError::TaskSubmissionFailed(status) => join2(
                "添加任务失败，状态码 ",
                status.as_str(),
            ),
            BbdownError::RunningTasksFailed(status) => join2(
                "获取运行中任务失败，状态码 ",
                status.as_str(),
            ),
            BbdownError::FinishedTasksFailed(status) => join2(
                "获取已完成任务失败，状态码 ",
                status.as_str(),
            ),
            BbdownError::RemoveFinishedFailed(status) => join2(
                "移除已完成任务失败，状态码 ",
                status.as_str(),
            ),
            BbdownError::RunningTasksInvalid(m) => join2("解析运行中任务失败: ", m.as_str()),
            BbdownError::FinishedTasksInvalid(m) => join2("解析已完成任务失败: ", m.as_str()),
            BbdownError::WaitTimedOut => "等待下载任务超时, 请确认 bbdown serve 状态".to_owned(),
            BbdownError::ProcessControl(m) => m.clone(),
        }
    }
}

/// The body of the request that gives the server a task.
#[derive(Debug)]
pub struct AddTaskPayload {
    pub url: String,
    pub file_pattern: Option<String>,
    pub multi_file_pattern: Option<String>,
}

/// A task as the server lists it.
#[derive(Debug)]
pub struct DownloadTask {
    pub aid: Option<String>,
    pub url: Option<String>,
    pub title: Option<String>,
}

/// The form in which targets are compared: trimmed, in lower case.
pub open spec fn normalized(value: Seq<char>) -> Seq<char> {
    lowercase(trimmed(value))
}

/// The form in which targets are compared: trimmed, in lower case.
pub fn normalize_target(value: &str) -> (r: String)
    ensures
        r@ == normalized(value@),
{
    let trimmed = trim(value);
    to_lowercase(trimmed.as_str())
}

impl DownloadTask {
    /// The target that the task works on, as targets are compared: its
    /// address, failing that its number.
    pub open spec fn key(self) -> Option<Seq<char>> {
        match self.url {
            Some(url) => Some(normalized(url@)),
            None => match self.aid {
                Some(aid) => Some(normalized(aid@)),
                None => None,
            },
        }
    }

    /// The target that the task works on, as targets are compared.
    pub fn target_key(&self) -> (r: Option<String>)
        ensures
            match r {
                Some(key) => self.key() == Some(key@),
                None => self.key() is None,
            },
    {
        match &self.url {
            Some(url) => Some(normalize_target(url.as_str())),
            None => match &self.aid {
                Some(aid) => Some(normalize_target(aid.as_str())),
                None => None,
            },
        }
    }
}

/// A request to the download server that gives it a task.
#[derive(Debug)]
pub struct TaskRequest {
    pub url: String,
    pub payload: AddTaskPayload,
}

/// The download server's address, for the requests to it.
#[derive(Debug, Clone)]
pub struct BbdownApiClient {
    base_url: String,
    timeout_secs: u64,
}

impl BbdownApiClient {
    /// The address of the server, without a slash at its end.
    pub closed spec fn spec_base_url(&self) -> Seq<char> {
        self.base_url@
    }

    /// The time allowed to a request, in seconds.
    pub closed spec fn spec_timeout_secs(&self) -> u64 {
        self.timeout_secs
    }

    /// A client of the server at `base_url`, slashes at the end of the
    /// address left out.
    pub fn new(base_url: &str, timeout_secs: u64) -> (client: BbdownApiClient)
        ensures
            client.spec_base_url() == strip_trailing(base_url@, '/', '/'),
            client.spec_timeout_secs() == timeout_secs,
    {
        BbdownApiClient { base_url: trim_end_of(base_url, '/', '/'), timeout_secs }
    }

    /// The address of the server, without a slash at its end.
    pub fn base_url(&self) -> (url: &str)
        ensures
            url@ == self.spec_base_url(),
    {
        self.base_url.as_str()
    }

    /// The time allowed to a request, in seconds.
    pub fn timeout_secs(&self) -> (secs: u64)
        ensures
            secs == self.spec_timeout_secs(),
    {
        self.timeout_secs
    }

    /// The request, to be posted, that gives the server the task to fetch
    /// `url_or_bvid`.
    pub fn add_task(
        &self,
        url_or_bvid: &str,
        file_pattern: Option<&str>,
        multi_file_pattern: Option<&str>,
    ) -> (request: TaskRequest)
        ensures
            request.url@ == self.spec_base_url() + "/add-task"@,
            request.payload.url@ == url_or_bvid@,
            match file_pattern {
                Some(p) => request.payload.file_pattern matches Some(q) && q@ == p@,
                None => request.payload.file_pattern is None,
            },
            match multi_file_pattern {
                Some(p) => request.payload.multi_file_pattern matches Some(q) && q@ == p@,
                None => request.payload.multi_file_pattern is None,
            },
    {
        TaskRequest {
            url: join2(self.base_url.as_str(), "/add-task"),
            payload: AddTaskPayload {
                url: url_or_bvid.to_owned(),
                file_pattern: match file_pattern {
                    Some(p) => Some(p.to_owned()),
                    None => None,
                },
                multi_file_pattern: match multi_file_pattern {
                    Some(p) => Some(p.to_owned()),
                    None => None,
                },
            },
        }
    }

    /// Whether the task was taken: the answer's status is 200.
    pub fn task_added(status: u16, status_text: &str) -> (r: Result<(), BbdownError>)
        ensures
            status == 200 ==> r is Ok,
            status != 200 ==> (r matches Err(e) && e@ == BbdownErrorView::TaskSubmissionFailed(
                status_text@,
            )),
    {
        if status == 200 {
            Ok(())
        } else {
            Err(BbdownError::TaskSubmissionFailed(status_text.to_owned()))
        }
    }

    /// The address that lists the running tasks.
    pub fn get_running(&self) -> (url: String)
        ensures
            url@ == self.spec_base_url() + "/get-tasks/running"@,
    {
        join2(self.base_url.as_str(), "/get-tasks/running")
    }

    /// The address that lists the finished tasks.
    pub fn get_finished(&self) -> (url: String)
        ensures
            url@ == self.spec_base_url() + "/get-tasks/finished"@,
    {
        join2(self.base_url.as_str(), "/get-tasks/finished")
    }

    /// The address that makes the server drop its finished tasks.
    pub fn remove_finished(&self) -> (url: String)
        ensures
            url@ == self.spec_base_url() + "/remove-finished"@,
    {
        join2(self.base_url.as_str(), "/remove-finished")
    }

    /// The running tasks that an answer lists: its body as it was read,
    /// where the status is 200.
    pub fn running_tasks(
        status: u16,
        status_text: &str,
        body: Result<Vec<DownloadTask>, String>,
    ) -> (r: Result<Vec<DownloadTask>, BbdownError>)
        ensures
            status != 200 ==> (r matches Err(e) && e@ == BbdownErrorView::RunningTasksFailed(
                status_text@,
            )),
            status == 200 ==> match body {
                Ok(tasks) => r == Ok::<Vec<DownloadTask>, BbdownError>(tasks),
                Err(m) => r matches Err(e) && e@ == BbdownErrorView::RunningTasksInvalid(m@),
            },
    {
        if status != 200 {
            return Err(BbdownError::RunningTasksFailed(status_text.to_owned()));
        }
        match body {
            Ok(tasks) => Ok(tasks),
            Err(m) => Err(BbdownError::RunningTasksInvalid(m)),
        }
    }

    /// The finished tasks that an answer lists: its body as it was read,
    /// where the status is 200.
    pub fn finished_tasks(
        status: u16,
        status_text: &str,
        body: Result<Vec<DownloadTask>, String>,
    ) -> (r: Result<Vec<DownloadTask>, BbdownError>)
        ensures
            status != 200 ==> (r matches Err(e) && e@ == BbdownErrorView::FinishedTasksFailed(
                status_text@,
            )),
            status == 200 ==> match body {
                Ok(tasks) => r == Ok::<Vec<DownloadTask>, BbdownError>(tasks),
                Err(m) => r matches Err(e) && e@ == BbdownErrorView::FinishedTasksInvalid(m@),
            },
    {
        if status != 200 {
            return Err(BbdownError::FinishedTasksFailed(status_text.to_owned()));
        }
        match body {
            Ok(tasks) => Ok(tasks),
            Err(m) => Err(BbdownError::FinishedTasksInvalid(m)),
        }
    }

    /// Whether the finished tasks were dropped: the answer's status is 200.
    pub fn finished_removed(status: u16, status_text: &str) -> (r: Result<(), BbdownError>)
        ensures
            status == 200 ==> r is Ok,
            status != 200 ==> (r matches Err(e) && e@ == BbdownErrorView::RemoveFinishedFailed(
                status_text@,
            )),
    {
        if status == 200 {
            Ok(())
        } else {
            Err(BbdownError::RemoveFinishedFailed(status_text.to_owned()))
        }
    }

    /// The start of a wait for the targets `targets`, at the moment
    /// `now_ms` of a clock that counts milliseconds.
    pub fn wait_until_idle(&self, targets: &Vec<String>, now_ms: u64) -> (wait: IdleWait)
        ensures
            wait@ == (WaitView {
                pending: target_keys(targets@),
                stable_empty: 0,
                last_change_ms: now_ms,
            }),
    {
        IdleWait::new(targets, now_ms)
    }
}

/// For how long, in milliseconds, a wait goes on without a task being
/// finished.
pub const STALL_TIMEOUT_MS: u64 = 600_000;

/// The targets as they are compared.
pub open spec fn target_keys(targets: Seq<String>) -> Set<Seq<char>> {
    Set::new(
        |key: Seq<char>|
            exists|k: int| 0 <= k < targets.len() && normalized((#[trigger] targets[k])@) == key,
    )
}

/// The targets of the tasks that have one.
pub open spec fn task_keys(tasks: Seq<DownloadTask>) -> Set<Seq<char>> {
    Set::new(
        |key: Seq<char>| exists|k: int| 0 <= k < tasks.len() && (#[trigger] tasks[k]).key() == Some(key),
    )
}

/// A wait for the download server to finish its work.
pub struct IdleWait {
    pending: StringHashSet,
    stable_empty: usize,
    last_change_ms: u64,
}

/// The state of a wait.
pub struct WaitView {
    /// The targets that were given to the server and are not yet known to
    /// be finished.
    pub pending: Set<Seq<char>>,
    /// How many times in a row the server was seen with nothing to do.
    pub stable_empty: nat,
    /// The moment at which a target was last seen to be finished.
    pub last_change_ms: u64,
}

impl View for IdleWait {
    type V = WaitView;

    closed spec fn view(&self) -> WaitView {
        WaitView {
            pending: self.pending@,
            stable_empty: self.stable_empty as nat,
            last_change_ms: self.last_change_ms,
        }
    }
}

/// What a look at the server means for the wait.
#[derive(Debug, Clone, Copy, PartialEq, Eq)]
pub enum WaitStep {
    /// The server has nothing left to do.
    Done,
    /// No target was finished for too long.
    TimedOut,
    /// The server is at work: look again after a pause.
    Sleep,
}

/// The time from `since` to `now`; none where `now` is the earlier.
pub open spec fn elapsed(now: u64, since: u64) -> int {
    if now >= since {
        now - since
    } else {
        0
    }
}

/// One more than `n`, as far as counting goes.
pub open spec fn bumped(n: nat) -> nat {
    if n < usize::MAX {
        n + 1
    } else {
        n
    }
}

/// What a look at the server makes of a wait. The targets among the
/// finished tasks are pending no longer, and where one of them was pending,
/// this is the moment of the last change. The server is idle where nothing
/// is pending and nothing runs. The wait is over where the server was idle
/// twice in a row; it has failed where the last change is longer ago than
/// `STALL_TIMEOUT_MS`; else it is over where the server is idle; else it
/// goes on.
pub open spec fn observed(
    state: WaitView,
    running: Seq<DownloadTask>,
    finished: Seq<DownloadTask>,
    now_ms: u64,
) -> (WaitView, WaitStep) {
    let pending = state.pending.difference(task_keys(finished));
    let last_change_ms = if pending =~= state.pending {
        state.last_change_ms
    } else {
        now_ms
    };
    let idle = pending.is_empty() && running.len() == 0;
    let stable_empty = if idle {
        bumped(state.stable_empty)
    } else {
        0
    };
    let step = if idle && stable_empty >= 2 {
        WaitStep::Done
    } else if elapsed(now_ms, last_change_ms) > STALL_TIMEOUT_MS {
        WaitStep::TimedOut
    } else if idle {
        WaitStep::Done
    } else {
        WaitStep::Sleep
    };
    (WaitView { pending, stable_empty, last_change_ms }, step)
}

impl IdleWait {
    /// A wait for `targets` that starts at the moment `now_ms`.
    pub fn new(targets: &Vec<String>, now_ms: u64) -> (wait: IdleWait)
        ensures
            wait@ == (WaitView {
                pending: target_keys(targets@),
                stable_empty: 0,
                last_change_ms: now_ms,
            }),
    {
        let mut pending = StringHashSet::new();
        let mut i: usize = 0;
        proof {
            assert(pending@ =~= target_keys(targets@.take(0)));
        }
        while i < targets.len()
            invariant
                i <= targets@.len(),
                pending@ == target_keys(targets@.take(i as int)),
            decreases targets@.len() - i,
        {
            let key = normalize_target(targets[i].as_str());
            let ghost before = targets@.take(i as int);
            let ghost after = targets@.take(i + 1);
            proof {
                assert forall|x: Seq<char>| target_keys(after).contains(x) <==> target_keys(
                    before,
                ).insert(key@).contains(x) by {
                    if target_keys(after).contains(x) {
                        let k = choose|k: int|
                            0 <= k < after.len() && normalized((#[trigger] after[k])@) == x;
                        if k < i {
                            assert(before[k] == after[k]);
                        }
                    }
                    if target_keys(before).contains(x) {
                        let k = choose|k: int|
                            0 <= k < before.len() && normalized((#[trigger] before[k])@) == x;
                        assert(after[k] == before[k]);
                    }
                    if x == key@ {
                        assert(normalized(after[i as int]@) == x);
                    }
                }
                assert(target_keys(after) =~= target_keys(before).insert(key@));
            }
            pending.insert(key);
            i += 1;
        }
        proof {
            assert(targets@.take(targets@.len() as int) =~= targets@);
        }
        IdleWait { pending, stable_empty: 0, last_change_ms: now_ms }
    }

    /// Whether a target is pending, so that the finished tasks are worth
    /// asking for.
    pub fn needs_finished(&self) -> (b: bool)
        ensures
            b == !self@.pending.is_empty(),
    {
        !self.pending.is_empty()
    }

    /// Takes in a look at the server at the moment `now_ms`: the tasks that
    /// run, and the finished ones (none need be given where no target is
    /// pending).
    pub fn observe(
        &mut self,
        running: &Vec<DownloadTask>,
        finished: &Vec<DownloadTask>,
        now_ms: u64,
    ) -> (step: WaitStep)
        ensures
            (final(self)@, step) == observed(old(self)@, running@, finished@, now_ms),
    {
        let ghost start = self.pending@;
        let mut target_still_running = false;
        let mut r: usize = 0;
        while r < running.len() && !target_still_running
            invariant
                r <= running@.len(),
                target_still_running ==> running@.len() > 0,
                self.pending@ == start,
                self.stable_empty == old(self).stable_empty,
                self.last_change_ms == old(self).last_change_ms,
            decreases running@.len() - r + (if target_still_running { 0int } else { 1int }),
        {
            match running[r].target_key() {
                Some(key) => {
                    if self.pending.contains(key.as_str()) {
                        target_still_running = true;
                    }
                },
                None => {},
            }
            r += 1;
        }
        let mut changed = false;
        if !self.pending.is_empty() {
            let mut f: usize = 0;
            proof {
                assert(start.difference(task_keys(finished@.take(0))) =~= start);
            }
            while f < finished.len()
                invariant
                    f <= finished@.len(),
                    self.pending@ == start.difference(task_keys(finished@.take(f as int))),
                    changed == (self.pending@ != start),
                    self.stable_empty == old(self).stable_empty,
                    changed ==> self.last_change_ms == now_ms,
                    !changed ==> self.last_change_ms == old(self).last_change_ms,
                decreases finished@.len() - f,
            {
                let ghost before = finished@.take(f as int);
                let ghost after = finished@.take(f + 1);
                let ghost held = self.pending@;
                proof {
                    assert forall|x: Seq<char>| task_keys(after).contains(x) <==> (task_keys(
                        before,
                    ).contains(x) || finished@[f as int].key() == Some(x)) by {
                        if task_keys(after).contains(x) {
                            let k = choose|k: int|
                                0 <= k < after.len() && (#[trigger] after[k]).key() == Some(x);
                            if k < f {
                                assert(before[k] == after[k]);
                            }
                        }
                        if task_keys(before).contains(x) {
                            let k = choose|k: int|
                                0 <= k < before.len() && (#[trigger] before[k]).key() == Some(x);
                            assert(after[k] == before[k]);
                        }
                        if finished@[f as int].key() == Some(x) {
                            assert(after[f as int].key() == Some(x));
                        }
                    }
                }
                match finished[f].target_key() {
                    Some(key) => {
                        if self.pending.remove(key.as_str()) {
                            self.last_change_ms = now_ms;
                            changed = true;
                            proof {
                                assert(start.contains(key@));
                                assert(!self.pending@.contains(key@));
                            }
                        } else {
                            proof {
                                assert(self.pending@ =~= held);
                            }
                        }
                        proof {
                            assert(self.pending@ =~= start.difference(task_keys(after)));
                        }
                    },
                    None => {
                        proof {
                            assert(self.pending@ =~= start.difference(task_keys(after)));
                        }
                    },
                }
                f += 1;
            }
            proof {
                assert(finished@.take(finished@.len() as int) =~= finished@);
            }
        } else {
            proof {
                assert(start =~= Set::<Seq<char>>::empty());
                assert(start.difference(task_keys(finished@)) =~= start);
            }
        }
        let idle = self.pending.is_empty() && running.len() == 0;
        if idle {
            if self.stable_empty < usize::MAX {
                self.stable_empty = self.stable_empty + 1;
            }
            if self.stable_empty >= 2 {
                return WaitStep::Done;
            }
        } else {
            self.stable_empty = 0;
        }
        let waited = if now_ms >= self.last_change_ms {
            now_ms - self.last_change_ms
        } else {
            0
        };
        if waited > STALL_TIMEOUT_MS {
            return WaitStep::TimedOut;
        }
        if !target_still_running && idle {
            return WaitStep::Done;
        }
        WaitStep::Sleep
    }
}


/// One look at the server: what runs, what has finished, and when.
#[derive(Debug)]
pub struct Observation {
    pub running: Vec<DownloadTask>,
    pub finished: Vec<DownloadTask>,
    pub now_ms: u64,
}

/// How a wait stands after a number of looks at the server.
#[derive(Debug, Clone, Copy, PartialEq, Eq)]
pub enum WaitOutcome {
    /// The server has nothing left to do.
    Idle,
    /// No target was finished for too long.
    TimedOut,
    /// The server was at work at the last look.
    Waiting,
}

/// How a wait stands after the looks `observations`, in their order: the
/// first look that ends the wait decides.
pub open spec fn outcome_of(state: WaitView, observations: Seq<Observation>) -> WaitOutcome
    decreases observations.len(),
{
    if observations.len() == 0 {
        WaitOutcome::Waiting
    } else {
        let first = observations[0];
        let (next, step) = observed(state, first.running@, first.finished@, first.now_ms);
        match step {
            WaitStep::Done => WaitOutcome::Idle,
            WaitStep::TimedOut => WaitOutcome::TimedOut,
            WaitStep::Sleep => outcome_of(next, observations.drop_first()),
        }
    }
}

impl IdleWait {
    /// Takes in the looks `observations` in their order, up to the first
    /// that ends the wait.
    pub fn run(&mut self, observations: &Vec<Observation>) -> (r: WaitOutcome)
        ensures
            r == outcome_of(old(self)@, observations@),
    {
        let mut i: usize = 0;
        proof {
            assert(observations@.skip(0) =~= observations@);
        }
        while i < observations.len()
            invariant
                i <= observations@.len(),
                outcome_of(old(self)@, observations@) == outcome_of(
                    self@,
                    observations@.skip(i as int),
                ),
            decreases observations@.len() - i,
        {
            let look = &observations[i];
            proof {
                assert(observations@.skip(i as int)[0] == *look);
                assert(observations@.skip(i as int).drop_first() =~= observations@.skip(i + 1));
            }
            match self.observe(&look.running, &look.finished, look.now_ms) {
                WaitStep::Done => {
                    return WaitOutcome::Idle;
                },
                WaitStep::TimedOut => {
                    return WaitOutcome::TimedOut;
                },
                WaitStep::Sleep => {},
            }
            i += 1;
        }
        WaitOutcome::Waiting
    }
}

/// A look that finds nothing pending and nothing running, no longer than
/// the wait allows after the last change, ends the wait well.
pub proof fn lemma_idle_in_time_is_done(
    state: WaitView,
    finished: Seq<DownloadTask>,
    now_ms: u64,
)
    requires
        state.pending.difference(task_keys(finished)).is_empty(),
        elapsed(now_ms, observed(state, Seq::empty(), finished, now_ms).0.last_change_ms)
            <= STALL_TIMEOUT_MS,
    ensures
        observed(state, Seq::empty(), finished, now_ms).1 == WaitStep::Done,
{
}

/// Of two looks in a row that find nothing pending and nothing running,
/// the second ends the wait well, whatever the time.
pub proof fn lemma_idle_twice_is_done(
    state: WaitView,
    first_finished: Seq<DownloadTask>,
    first_ms: u64,
    second_finished: Seq<DownloadTask>,
    second_ms: u64,
)
    requires
        state.pending.difference(task_keys(first_finished)).is_empty(),
    ensures
        observed(
            observed(state, Seq::empty(), first_finished, first_ms).0,
            Seq::empty(),
            second_finished,
            second_ms,
        ).1 == WaitStep::Done,
{
    let after = observed(state, Seq::empty(), first_finished, first_ms).0;
    assert(after.pending.difference(task_keys(second_finished)) =~= Set::<Seq<char>>::empty());
}

/// A look that finds none of the pending targets finished leaves the wait
/// as it was: it fails where the last change is longer ago than the wait
/// allows, and goes on else.
pub proof fn lemma_stalled_look(
    state: WaitView,
    running: Seq<DownloadTask>,
    finished: Seq<DownloadTask>,
    now_ms: u64,
)
    requires
        !state.pending.is_empty(),
        state.pending.disjoint(task_keys(finished)),
    ensures
        observed(state, running, finished, now_ms).0 == (WaitView { stable_empty: 0, ..state }),
        observed(state, running, finished, now_ms).1 == if elapsed(now_ms, state.last_change_ms)
            > STALL_TIMEOUT_MS {
            WaitStep::TimedOut
        } else {
            WaitStep::Sleep
        },
{
    assert(state.pending.difference(task_keys(finished)) =~= state.pending);
}

/// A wait whose pending targets are never seen finished does not end
/// well, and fails at the first look that comes later after the last
/// change than the wait allows.
pub proof fn lemma_never_finished_times_out(state: WaitView, observations: Seq<Observation>)
    requires
        !state.pending.is_empty(),
        forall|k: int|
            0 <= k < observations.len() ==> state.pending.disjoint(
                task_keys((#[trigger] observations[k]).finished@),
            ),
    ensures
        outcome_of(state, observations) != WaitOutcome::Idle,
        (exists|k: int|
            0 <= k < observations.len() && elapsed(
                (#[trigger] observations[k]).now_ms,
                state.last_change_ms,
            ) > STALL_TIMEOUT_MS) ==> outcome_of(state, observations) == WaitOutcome::TimedOut,
    decreases observations.len(),
{
    if observations.len() > 0 {
        let first = observations[0];
        let rest = observations.drop_first();
        lemma_stalled_look(state, first.running@, first.finished@, first.now_ms);
        let next = WaitView { stable_empty: 0, ..state };
        assert forall|k: int| 0 <= k < rest.len() implies next.pending.disjoint(
            task_keys((#[trigger] rest[k]).finished@),
        ) by {
            assert(rest[k] == observations[k + 1]);
        }
        lemma_never_finished_times_out(next, rest);
        if elapsed(first.now_ms, state.last_change_ms) <= STALL_TIMEOUT_MS {
            if exists|k: int|
                0 <= k < observations.len() && elapsed(
                    (#[trigger] observations[k]).now_ms,
                    state.last_change_ms,
                ) > STALL_TIMEOUT_MS {
                let k = choose|k: int|
                    0 <= k < observations.len() && elapsed(
                        (#[trigger] observations[k]).now_ms,
                        state.last_change_ms,
                    ) > STALL_TIMEOUT_MS;
                assert(k > 0);
                assert(rest[k - 1] == observations[k]);
            }
        }
    }
}

/// Whether the server is started through the shell of a Windows host: on
/// Windows itself, and inside its Linux subsystem.
pub fn should_launch_windows_detached(on_windows: bool, in_wsl: bool) -> (b: bool)
    ensures
        b == (on_windows || in_wsl),
{
    on_windows || in_wsl
}

/// The texts of a list of strings.
pub open spec fn arg_texts(args: Seq<String>) -> Seq<Seq<char>> {
    args.map_values(|a: String| a@)
}

/// The arguments of the command that starts the server: `serve`, then
/// those of the caller.
pub fn serve_arguments(args: &Vec<String>) -> (r: Vec<String>)
    ensures
        arg_texts(r@) == seq!["serve"@] + arg_texts(args@),
{
    let mut r: Vec<String> = Vec::new();
    r.push("serve".to_owned());
    let mut i: usize = 0;
    while i < args.len()
        invariant
            i <= args@.len(),
            r@.len() == i + 1,
            r@[0]@ == "serve"@,
            forall|k: int| 0 <= k < i ==> (#[trigger] r@[k + 1])@ == args@[k]@,
        decreases args@.len() - i,
    {
        r.push(args[i].clone());
        i += 1;
    }
    proof {
        assert(arg_texts(r@) =~= seq!["serve"@] + arg_texts(args@)) by {
            let left = arg_texts(r@);
            let right = seq!["serve"@] + arg_texts(args@);
            assert(left.len() == right.len());
            assert forall|k: int| 0 <= k < left.len() implies left[k] == right[k] by {
                if k > 0 {
                    assert(r@[(k - 1) + 1]@ == args@[k - 1]@);
                }
            }
        }
    }
    r
}

/// The arguments with every single quote doubled, a space between two.
pub open spec fn quoted_arguments(args: Seq<Seq<char>>) -> Seq<char>
    decreases args.len(),
{
    if args.len() == 0 {
        Seq::empty()
    } else if args.len() == 1 {
        quotes_doubled(args[0])
    } else {
        quoted_arguments(args.drop_last()) + " "@ + quotes_doubled(args.last())
    }
}

/// The script that the shell of a Windows host runs to start the server
/// apart from this program and to print the number of its process.
pub open spec fn launch_script(args: Seq<Seq<char>>) -> Seq<char> {
    "$proc = Start-Process -FilePath 'bbdown' -ArgumentList '"@ + quoted_arguments(
        seq!["serve"@] + args,
    ) + "' -WindowStyle Normal -PassThru; Write-Output $proc.Id"@
}

/// The script that the shell of a Windows host runs to start the server
/// with the arguments `args`.
pub fn windows_launch_script(args: &Vec<String>) -> (script: String)
    ensures
        script@ == launch_script(arg_texts(args@)),
{
    let full = serve_arguments(args);
    let ghost all = arg_texts(full@);
    let ghost head = "$proc = Start-Process -FilePath 'bbdown' -ArgumentList '"@;
    let mut script = "$proc = Start-Process -FilePath 'bbdown' -ArgumentList '".to_owned();
    let mut i: usize = 0;
    proof {
        assert(script@ =~= head + quoted_arguments(all.take(0)));
    }
    while i < full.len()
        invariant
            i <= full@.len(),
            all == arg_texts(full@),
            script@ == head + quoted_arguments(all.take(i as int)),
        decreases full@.len() - i,
    {
        let ghost before = script@;
        proof {
            assert(all.take(i + 1).drop_last() =~= all.take(i as int));
            assert(all.take(i + 1).last() == full@[i as int]@);
        }
        if i > 0 {
            script.append(" ");
        }
        push_quotes_doubled(&mut script, full[i].as_str());
        proof {
            if i > 0 {
                assert(script@ =~= head + (quoted_arguments(all.take(i as int)) + " "@
                    + quotes_doubled(full@[i as int]@)));
            } else {
                assert(quoted_arguments(all.take(0)) =~= Seq::<char>::empty());
                assert(script@ =~= head + quotes_doubled(full@[i as int]@));
            }
        }
        i += 1;
    }
    proof {
        assert(all.take(full@.len() as int) =~= all);
    }
    script.append("' -WindowStyle Normal -PassThru; Write-Output $proc.Id");
    script
}

/// The failure that stands for a shell that could not start the server;
/// `stderr_text` is what the shell wrote to its error output.
pub fn launch_failed(stderr_text: &str) -> (e: BbdownError)
    ensures
        e@ == BbdownErrorView::ProcessControl("启动 bbdown serve 失败: "@ + trimmed(stderr_text@)),
{
    let shown = trim(stderr_text);
    BbdownError::ProcessControl(join2("启动 bbdown serve 失败: ", shown.as_str()))
}

/// The number of the server's process, out of what the shell printed.
pub fn parse_pid(stdout_text: &str) -> (r: Result<u32, BbdownError>)
    ensures
        match unsigned_of(trimmed(stdout_text@), u32::MAX as u64) {
            Some(pid) => r == Ok::<u32, BbdownError>(pid as u32),
            None => r matches Err(e) && e@ == BbdownErrorView::ProcessControl(
                "解析 bbdown serve PID 失败: "@ + trimmed(stdout_text@),
            ),
        },
{
    let shown = trim(stdout_text);
    match parse_unsigned(shown.as_str(), 0xFFFF_FFFF) {
        Some(pid) => Ok(pid as u32),
        None => Err(
            BbdownError::ProcessControl(join2("解析 bbdown serve PID 失败: ", shown.as_str())),
        ),
    }
}

/// The arguments of the command that ends process `pid` by force on a
/// Windows host.
pub fn taskkill_arguments(pid: u32) -> (r: Vec<String>)
    ensures
        arg_texts(r@) == seq!["/PID"@, decimal_digits(pid as nat), "/F"@],
{
    let mut number = String::new();
    push_decimal(&mut number, pid as u64);
    let mut r: Vec<String> = Vec::new();
    r.push("/PID".to_owned());
    r.push(number);
    r.push("/F".to_owned());
    proof {
        assert(Seq::<char>::empty() + decimal_digits(pid as nat) =~= decimal_digits(pid as nat));
        assert(arg_texts(r@) =~= seq!["/PID"@, decimal_digits(pid as nat), "/F"@]);
    }
    r
}

/// Whether a failure to end the server's process counts: not where the
/// process had ended before.
pub fn kill_failure(already_exited: bool, message: &str) -> (r: Result<(), BbdownError>)
    ensures
        already_exited ==> r is Ok,
        !already_exited ==> (r matches Err(e) && e@ == BbdownErrorView::ProcessControl(message@)),
{
    if already_exited {
        Ok(())
    } else {
        Err(BbdownError::ProcessControl(message.to_owned()))
    }
}

/// What to do to fetch one video with the download tool.
#[derive(Debug)]
pub enum BbdownRun {
    /// Nothing but to show this line.
    DryRun(String),
    /// To run the tool with these arguments.
    Command(Vec<String>),
}

/// What to do to fetch the video `bvid` into `work_dir`: in a dry run only
/// to say so, else to run the tool.
pub fn run_bbdown(bvid: &str, work_dir: &str, dry_run: bool) -> (r: BbdownRun)
    ensures
        dry_run ==> (r matches BbdownRun::DryRun(line) && line@ == "[dry-run] bbdown "@ + bvid@
            + " --work-dir "@ + work_dir@),
        !dry_run ==> (r matches BbdownRun::Command(args) && arg_texts(args@) == seq![
            bvid@,
            "--work-dir"@,
            work_dir@,
        ]),
{
    if dry_run {
        let mut line = join2("[dry-run] bbdown ", bvid);
        line.append(" --work-dir ");
        line.append(work_dir);
        BbdownRun::DryRun(line)
    } else {
        let mut args: Vec<String> = Vec::new();
        args.push(bvid.to_owned());
        args.push("--work-dir".to_owned());
        args.push(work_dir.to_owned());
        proof {
            assert(arg_texts(args@) =~= seq![bvid@, "--work-dir"@, work_dir@]);
        }
        BbdownRun::Command(args)
    }
}

/// Whether a run of the download tool went well; `code` is the code with
/// which it ended, where it has one.
pub fn bbdown_exit(success: bool, code: Option<i32>) -> (r: Result<(), BbdownError>)
    ensures
        success ==> r is Ok,
        !success ==> (r matches Err(e) && e@ == BbdownErrorView::ProcessControl(
            "bbdown 执行失败，退出码 "@ + decimal_text(
                match code {
                    Some(c) => c as int,
                    None => -1,
                },
            ),
        )),
{
    if success {
        return Ok(());
    }
    let shown: i32 = match code {
        Some(c) => c,
        None => -1,
    };
    let mut message = "bbdown 执行失败，退出码 ".to_owned();
    push_signed_decimal(&mut message, shown as i64);
    Err(BbdownError::ProcessControl(message))
}

} // verus!
