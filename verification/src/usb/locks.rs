//! Closing the processes that lock a drive, through a Restart Manager session.

use crate::text::{decimal, decimal_text, error_text};
use crate::usb::actions::{locking_actions, process_actions_from_rm, LockingProcess};
use crate::usb::{action_views, ActionView, ProcessAction};
use crate::wide::{utf16, wide_null};
use vstd::prelude::*;
use vstd::string::*;

verus! {

/// The code of a call that succeeded.
pub const ERROR_SUCCESS: u32 = 0;

/// The code of a listing that needs a larger buffer.
pub const ERROR_MORE_DATA: u32 = 234;

/// The code of a call that was denied.
pub const ERROR_ACCESS_DENIED: u32 = 5;

/// How many files are registered in one call.
pub const REGISTRATION_CHUNK: usize = 512;

/// Why the Restart Manager gave nothing.
#[derive(Debug, Clone, PartialEq, Eq)]
pub enum RestartManagerError {
    AccessDenied(String),
    Other(String),
}

/// Why the Restart Manager gave nothing, as a plain text.
pub ghost enum LockErrorView {
    AccessDenied(Seq<char>),
    Other(Seq<char>),
}

impl View for RestartManagerError {
    type V = LockErrorView;

    open spec fn view(&self) -> LockErrorView {
        match self {
            RestartManagerError::AccessDenied(error) => LockErrorView::AccessDenied(error@),
            RestartManagerError::Other(error) => LockErrorView::Other(error@),
        }
    }
}

impl vstd::std_specs::convert::FromSpecImpl<String> for RestartManagerError {
    open spec fn obeys_from_spec() -> bool {
        true
    }

    open spec fn from_spec(error: String) -> RestartManagerError {
        RestartManagerError::Other(error)
    }
}

impl From<String> for RestartManagerError {
    /// An error of a call other than a denied one.
    fn from(error: String) -> (wrapped: RestartManagerError) {
        RestartManagerError::Other(error)
    }
}

/// A list of actions or an error, as plain values.
pub open spec fn actions_result(result: Result<Vec<ProcessAction>, RestartManagerError>) -> Result<
    Seq<ActionView>,
    LockErrorView,
> {
    match result {
        Ok(actions) => Ok(action_views(actions@)),
        Err(error) => Err(error@),
    }
}

/// A list of locking processes or an error, as plain values.
pub open spec fn listing_result(
    result: Result<Vec<LockingProcess>, RestartManagerError>,
) -> Result<Seq<LockingProcess>, LockErrorView> {
    match result {
        Ok(processes) => Ok(processes@),
        Err(error) => Err(error@),
    }
}

/// What a call's code means.
pub open spec fn call_result(name: Seq<char>, code: u32) -> Result<(), Seq<char>> {
    if code == ERROR_SUCCESS {
        Ok(())
    } else {
        Err(name + " failed: "@ + decimal(code as nat))
    }
}

fn checked_call(name: &str, code: u32) -> (result: Result<(), String>)
    ensures
        error_text(result) == call_result(name@, code),
{
    if code == ERROR_SUCCESS {
        Ok(())
    } else {
        let number = decimal_text(code as u128);
        let mut message = name.to_owned();
        message.append(" failed: ");
        message.append(number.as_str());
        Err(message)
    }
}

/// Whether a session was started.
pub fn session_started(code: u32) -> (result: Result<(), String>)
    ensures
        error_text(result) == call_result("RmStartSession"@, code),
{
    checked_call("RmStartSession", code)
}

/// Whether files were registered.
pub fn resources_registered(code: u32) -> (result: Result<(), String>)
    ensures
        error_text(result) == call_result("RmRegisterResources"@, code),
{
    checked_call("RmRegisterResources", code)
}

/// Whether the processes were shut down.
pub fn processes_shut_down(code: u32) -> (result: Result<(), String>)
    ensures
        error_text(result) == call_result("RmShutdown"@, code),
{
    checked_call("RmShutdown", code)
}

/// The paths of one registration, each with a zero at its end.
pub open spec fn wide_paths(paths: Seq<String>) -> Seq<Seq<u16>> {
    paths.map_values(|path: String| utf16(path@).push(0))
}

/// The units of a list of paths.
pub open spec fn unit_texts(paths: Seq<Vec<u16>>) -> Seq<Seq<u16>> {
    paths.map_values(|path: Vec<u16>| path@)
}

/// The registrations of the files from `start` on, as many as fit in each.
pub open spec fn registrations_from(paths: Seq<String>, start: int) -> Seq<Seq<Seq<u16>>>
    decreases paths.len() - start,
{
    if start >= paths.len() {
        Seq::empty()
    } else {
        let end = if start + REGISTRATION_CHUNK < paths.len() {
            start + REGISTRATION_CHUNK
        } else {
            paths.len() as int
        };
        seq![wide_paths(paths.subrange(start, end))] + registrations_from(paths, end)
    }
}

/// The registrations as plain values.
pub open spec fn registration_views(chunks: Seq<Vec<Vec<u16>>>) -> Seq<Seq<Seq<u16>>> {
    chunks.map_values(|chunk: Vec<Vec<u16>>| unit_texts(chunk@))
}

/// Cuts the files into registrations.
pub fn registration_chunks(paths: &Vec<String>) -> (chunks: Vec<Vec<Vec<u16>>>)
    ensures
        registration_views(chunks@) == registrations_from(paths@, 0),
{
    let mut chunks: Vec<Vec<Vec<u16>>> = Vec::new();
    let n: usize = paths.len();
    let mut start: usize = 0;
    assert(registration_views(chunks@) =~= Seq::empty());
    assert(Seq::<Seq<Seq<u16>>>::empty() + registrations_from(paths@, 0) == registrations_from(
        paths@,
        0,
    ));
    while start < n
        invariant
            n == paths@.len(),
            start <= n,
            registration_views(chunks@) + registrations_from(paths@, start as int)
                == registrations_from(paths@, 0),
        decreases n - start,
    {
        let end: usize = if n - start > REGISTRATION_CHUNK {
            start + REGISTRATION_CHUNK
        } else {
            n
        };
        let mut chunk: Vec<Vec<u16>> = Vec::new();
        let ghost wide = wide_paths(paths@.subrange(start as int, end as int));
        assert(unit_texts(chunk@) =~= wide.take(0));
        for i in start..end
            invariant
                start <= end <= n == paths@.len(),
                wide == wide_paths(paths@.subrange(start as int, end as int)),
                unit_texts(chunk@) == wide.take(i - start),
        {
            let ghost before = unit_texts(chunk@);
            let units = wide_null(paths[i].as_str());
            chunk.push(units);
            assert(unit_texts(chunk@) =~= before.push(units@));
            assert(wide.take(i - start + 1) =~= before.push(wide[i - start]));
        }
        assert(wide.take(end - start) == wide);
        let ghost before = registration_views(chunks@);
        let ghost rest = registrations_from(paths@, end as int);
        chunks.push(chunk);
        assert(registration_views(chunks@) =~= before.push(wide));
        assert(before.push(wide) + rest =~= before + (seq![wide] + rest));
        start = end;
    }
    assert(registration_views(chunks@) + Seq::<Seq<Seq<u16>>>::empty() == registration_views(
        chunks@,
    ));
    chunks
}

proof fn lemma_flatten_first(first: Seq<Seq<u16>>, rest: Seq<Seq<Seq<u16>>>)
    ensures
        (seq![first] + rest).flatten() == first + rest.flatten(),
{
    assert((seq![first] + rest).first() == first);
    assert((seq![first] + rest).drop_first() =~= rest);
}

/// The registrations hold every file once, in order.
pub proof fn registrations_cover_all(paths: Seq<String>, start: int)
    requires
        0 <= start <= paths.len(),
    ensures
        registrations_from(paths, start).flatten() == wide_paths(paths.skip(start)),
    decreases paths.len() - start,
{
    if start < paths.len() {
        let end = if start + REGISTRATION_CHUNK < paths.len() {
            start + REGISTRATION_CHUNK
        } else {
            paths.len() as int
        };
        registrations_cover_all(paths, end);
        lemma_flatten_first(wide_paths(paths.subrange(start, end)), registrations_from(paths, end));
        assert(wide_paths(paths.skip(start)) =~= wide_paths(paths.subrange(start, end))
            + wide_paths(paths.skip(end)));
    } else {
        assert(wide_paths(paths.skip(start)) =~= Seq::empty());
        assert(registrations_from(paths, start).flatten() =~= Seq::empty());
    }
}

/// What the first call of a listing means.
#[derive(Debug, Clone, PartialEq, Eq)]
pub enum FirstListing {
    /// No process locks the files.
    Empty,
    /// The processes are to be fetched with a second call.
    Fetch,
    /// The listing failed.
    Failed(RestartManagerError),
}

/// What the code of a listing's first call means.
pub fn first_listing(code: u32) -> (listing: FirstListing)
    ensures
        code == ERROR_SUCCESS <==> listing is Empty,
        code == ERROR_MORE_DATA <==> listing is Fetch,
        code == ERROR_ACCESS_DENIED ==> listing is Failed && listing->Failed_0@
            == LockErrorView::AccessDenied(
            "RmGetList failed with access denied while inspecting protected locking processes."@,
        ),
        code != ERROR_SUCCESS && code != ERROR_MORE_DATA && code != ERROR_ACCESS_DENIED
            ==> listing is Failed && listing->Failed_0@ == LockErrorView::Other(
            "RmGetList failed: "@ + decimal(code as nat),
        ),
{
    if code == ERROR_SUCCESS {
        FirstListing::Empty
    } else if code == ERROR_MORE_DATA {
        FirstListing::Fetch
    } else if code == ERROR_ACCESS_DENIED {
        FirstListing::Failed(
            RestartManagerError::AccessDenied(
                "RmGetList failed with access denied while inspecting protected locking processes.".to_owned(),
            ),
        )
    } else {
        let number = decimal_text(code as u128);
        let mut message = "RmGetList failed: ".to_owned();
        message.append(number.as_str());
        FirstListing::Failed(RestartManagerError::Other(message))
    }
}

/// What a listing's second call gives: the first `count` of the fetched
/// processes, or its failure.
pub fn second_listing(code: u32, fetched: Vec<LockingProcess>, count: u32) -> (result: Result<
    Vec<LockingProcess>,
    RestartManagerError,
>)
    ensures
        listing_result(result) == if code == ERROR_SUCCESS {
            Ok::<Seq<LockingProcess>, LockErrorView>(
                if count < fetched@.len() {
                    fetched@.take(count as int)
                } else {
                    fetched@
                },
            )
        } else {
            Err(LockErrorView::Other("RmGetList failed: "@ + decimal(code as nat)))
        },
{
    if code != ERROR_SUCCESS {
        let number = decimal_text(code as u128);
        let mut message = "RmGetList failed: ".to_owned();
        message.append(number.as_str());
        return Err(RestartManagerError::Other(message));
    }
    let mut fetched = fetched;
    if (count as usize) < fetched.len() {
        fetched.truncate(count as usize);
    }
    Ok(fetched)
}

/// Whether a process is among the listed ones.
pub open spec fn is_listed(processes: Seq<LockingProcess>, pid: u32) -> bool {
    exists|i: int| 0 <= i < processes.len() && (#[trigger] processes[i]).pid == pid
}

fn listed(processes: &Vec<LockingProcess>, pid: u32) -> (found: bool)
    ensures
        found == is_listed(processes@, pid),
{
    for i in 0..processes.len()
        invariant
            forall|j: int| 0 <= j < i ==> (#[trigger] processes@[j]).pid != pid,
    {
        if processes[i].pid == pid {
            return true;
        }
    }
    false
}

/// The actions once it is known which processes remain.
pub open spec fn marked_actions(
    actions: Seq<ActionView>,
    remaining: Seq<LockingProcess>,
) -> Seq<ActionView> {
    actions.map_values(
        |a: ActionView|
            ActionView {
                action: if is_listed(remaining, a.pid) {
                    "still locking after Restart Manager shutdown"@
                } else {
                    "closed by Restart Manager"@
                },
                ..a
            },
    )
}

fn mark_actions(actions: Vec<ProcessAction>, remaining: &Vec<LockingProcess>) -> (marked: Vec<
    ProcessAction,
>)
    ensures
        action_views(marked@) == marked_actions(action_views(actions@), remaining@),
{
    let ghost all = action_views(actions@);
    let ghost goal = marked_actions(all, remaining@);
    let mut marked: Vec<ProcessAction> = Vec::new();
    assert(action_views(marked@) =~= goal.take(0));
    for action in it: actions
        invariant
            it.seq() == actions@,
            all == action_views(actions@),
            goal == marked_actions(all, remaining@),
            action_views(marked@) == goal.take(it.index()),
    {
        let ghost before = action_views(marked@);
        let ghost index = it.index();
        assert(all[index] == action@);
        let ProcessAction { pid, name, path, action: _ } = action;
        let what = if listed(remaining, pid) {
            "still locking after Restart Manager shutdown".to_owned()
        } else {
            "closed by Restart Manager".to_owned()
        };
        let now = ProcessAction { pid, name, path, action: what };
        assert(now@ == goal[index]);
        marked.push(now);
        assert(action_views(marked@) =~= before.push(now@));
        assert(goal.take(index + 1) =~= before.push(goal[index]));
    }
    assert(goal.take(goal.len() as int) == goal);
    marked
}

/// The next call of a session that closes locks.
#[derive(Debug, Clone, Copy, PartialEq, Eq, Structural)]
pub enum LockStep {
    Start,
    Register,
    ListFirst,
    ShutDown,
    ListAgain,
    ForceShutDown,
    ListLast,
}

/// A session that closes locks.
#[derive(Debug)]
pub struct LockClosing {
    pub step: LockStep,
    pub actions: Vec<ProcessAction>,
}

/// What a call of the session gave.
#[derive(Debug)]
pub enum LockOutcome {
    Called(Result<(), String>),
    Listed(Result<Vec<LockingProcess>, RestartManagerError>),
}

/// How a session goes on.
#[derive(Debug)]
pub enum LockProgress {
    Continue(LockClosing),
    Finished(Result<Vec<ProcessAction>, RestartManagerError>),
}

/// How a session goes on, as plain values.
pub ghost enum ProgressView {
    Continue(LockStep, Seq<ActionView>),
    Finished(Result<Seq<ActionView>, LockErrorView>),
}

impl View for LockProgress {
    type V = ProgressView;

    open spec fn view(&self) -> ProgressView {
        match self {
            LockProgress::Continue(closing) => ProgressView::Continue(
                closing.step,
                action_views(closing.actions@),
            ),
            LockProgress::Finished(result) => ProgressView::Finished(actions_result(*result)),
        }
    }
}

/// How a session goes on after a call. The processes are listed and asked to
/// close, then forced to where some remain, and at last it is noted which remain.
pub open spec fn lock_progress(
    step: LockStep,
    actions: Seq<ActionView>,
    outcome: LockOutcome,
) -> ProgressView {
    match outcome {
        LockOutcome::Called(Err(error)) => match step {
            LockStep::Start | LockStep::Register | LockStep::ShutDown | LockStep::ForceShutDown =>
            ProgressView::Finished(Err(LockErrorView::Other(error@))),
            _ => ProgressView::Continue(step, actions),
        },
        LockOutcome::Called(Ok(_)) => match step {
            LockStep::Start => ProgressView::Continue(LockStep::Register, actions),
            LockStep::Register => ProgressView::Continue(LockStep::ListFirst, actions),
            LockStep::ShutDown => ProgressView::Continue(LockStep::ListAgain, actions),
            LockStep::ForceShutDown => ProgressView::Continue(LockStep::ListLast, actions),
            _ => ProgressView::Continue(step, actions),
        },
        LockOutcome::Listed(Err(error)) => match step {
            LockStep::ListFirst | LockStep::ListAgain | LockStep::ListLast =>
            ProgressView::Finished(Err(error@)),
            _ => ProgressView::Continue(step, actions),
        },
        LockOutcome::Listed(Ok(processes)) => match step {
            LockStep::ListFirst => if processes@.len() == 0 {
                ProgressView::Finished(Ok(Seq::empty()))
            } else {
                ProgressView::Continue(
                    LockStep::ShutDown,
                    locking_actions(processes@, "detected by Restart Manager"@),
                )
            },
            LockStep::ListAgain => if processes@.len() == 0 {
                ProgressView::Continue(LockStep::ListLast, actions)
            } else {
                ProgressView::Continue(LockStep::ForceShutDown, actions)
            },
            LockStep::ListLast => ProgressView::Finished(Ok(marked_actions(actions, processes@))),
            _ => ProgressView::Continue(step, actions),
        },
    }
}

impl LockClosing {
    /// A session that is about to start.
    pub fn new() -> (closing: Self)
        ensures
            closing.step == LockStep::Start,
            action_views(closing.actions@) == Seq::<ActionView>::empty(),
    {
        let closing = LockClosing { step: LockStep::Start, actions: Vec::new() };
        assert(action_views(closing.actions@) =~= Seq::empty());
        closing
    }

    /// Goes on after a call. An outcome that the step cannot have changes nothing.
    pub fn advance(self, outcome: LockOutcome) -> (progress: LockProgress)
        ensures
            progress@ == lock_progress(self.step, action_views(self.actions@), outcome),
    {
        let LockClosing { step, actions } = self;
        match outcome {
            LockOutcome::Called(Err(error)) => match step {
                LockStep::Start | LockStep::Register | LockStep::ShutDown
                | LockStep::ForceShutDown => LockProgress::Finished(
                    Err(RestartManagerError::from(error)),
                ),
                _ => LockProgress::Continue(LockClosing { step, actions }),
            },
            LockOutcome::Called(Ok(_)) => {
                let step = match step {
                    LockStep::Start => LockStep::Register,
                    LockStep::Register => LockStep::ListFirst,
                    LockStep::ShutDown => LockStep::ListAgain,
                    LockStep::ForceShutDown => LockStep::ListLast,
                    _ => step,
                };
                LockProgress::Continue(LockClosing { step, actions })
            },
            LockOutcome::Listed(Err(error)) => match step {
                LockStep::ListFirst | LockStep::ListAgain | LockStep::ListLast =>
                LockProgress::Finished(Err(error)),
                _ => LockProgress::Continue(LockClosing { step, actions }),
            },
            LockOutcome::Listed(Ok(processes)) => match step {
                LockStep::ListFirst => {
                    if processes.len() == 0 {
                        let none: Vec<ProcessAction> = Vec::new();
                        assert(action_views(none@) =~= Seq::empty());
                        LockProgress::Finished(Ok(none))
                    } else {
                        let actions = process_actions_from_rm(
                            &processes,
                            "detected by Restart Manager",
                        );
                        LockProgress::Continue(LockClosing { step: LockStep::ShutDown, actions })
                    }
                },
                LockStep::ListAgain => {
                    let step = if processes.len() == 0 {
                        LockStep::ListLast
                    } else {
                        LockStep::ForceShutDown
                    };
                    LockProgress::Continue(LockClosing { step, actions })
                },
                LockStep::ListLast => LockProgress::Finished(Ok(mark_actions(actions, &processes))),
                _ => LockProgress::Continue(LockClosing { step, actions }),
            },
        }
    }
}

/// No process is forced to close before it was asked to and a listing showed
/// processes that remain.
pub proof fn force_follows_a_request(
    step: LockStep,
    actions: Seq<ActionView>,
    outcome: LockOutcome,
)
    requires
        step != LockStep::ForceShutDown,
        lock_progress(step, actions, outcome) is Continue,
        lock_progress(step, actions, outcome)->Continue_0 == LockStep::ForceShutDown,
    ensures
        step == LockStep::ListAgain,
        outcome is Listed,
        outcome->Listed_0 is Ok,
        outcome->Listed_0->Ok_0@.len() > 0,
{
}

/// A process is reported as closed exactly where the last listing lacks it.
pub proof fn closed_means_no_longer_listed(
    actions: Seq<ActionView>,
    remaining: Seq<LockingProcess>,
    i: int,
)
    requires
        0 <= i < actions.len(),
    ensures
        marked_actions(actions, remaining)[i].pid == actions[i].pid,
        marked_actions(actions, remaining)[i].name == actions[i].name,
        marked_actions(actions, remaining)[i].action == "closed by Restart Manager"@ <==>
            !is_listed(remaining, actions[i].pid),
{
    reveal_strlit("closed by Restart Manager");
    reveal_strlit("still locking after Restart Manager shutdown");
    assert("closed by Restart Manager"@[0] == 'c');
    assert("still locking after Restart Manager shutdown"@[0] == 's');
}

/// What an inspection of the remaining locks gives.
pub fn inspected_locks(listing: Result<Vec<LockingProcess>, RestartManagerError>) -> (result:
    Result<Vec<ProcessAction>, RestartManagerError>)
    ensures
        actions_result(result) == match listing_result(listing) {
            Ok(processes) => Ok::<Seq<ActionView>, LockErrorView>(
                locking_actions(processes, "still locking after cleanup"@),
            ),
            Err(error) => Err(error),
        },
{
    match listing {
        Ok(processes) => Ok(process_actions_from_rm(&processes, "still locking after cleanup")),
        Err(error) => Err(error),
    }
}

} // verus!
