//! The scratchpad engine: a state machine that serves one control request at a time.
//!
//! The driver hands the engine an [`Event`] and the current time; the engine answers with the
//! [`Effect`] it needs next: a compositor query, a state save, a batch of compositor actions,
//! a pause, the start of a background anchoring job, or the reply to the request. A batch of
//! actions is performed in order and stops at the first one that fails.

use vstd::prelude::*;
use vstd::string::*;
use crate::text::{opt_view, opt_str_eq};
use crate::pattern::regex_error_text;
use crate::model::{
    WorkspaceInfo, WorkspaceView, WindowInfo, WindowView, CompositorAction, ActionView,
    ReturnTarget, ReturnTargetView, ControlRequest, RequestView, PersistedState, NamedMap,
    find_first, find_from, workspaces_view, windows_view, actions_view,
};
use crate::config::{Config, ScratchpadConfig, PadView, PatternField, config_issue, pattern_fails};
use crate::planning::{
    EngineError, ErrorView, StatusEntry, StatusView, MissingWorkspace, status_view, missing_view,
    focused_position, show_origin, presentation, has_windows, spawn_actions, launch_commands,
    hiding, fresh_ids, with_ids, anchor_moves, initial_focus, status_outcome, missing_workspaces,
    patterns_compile, find_focused, compute_show_origin, plan_presentation, plan_spawns,
    plan_hiding, plan_anchor_round, failing_field, failing_pattern, failing_pattern_field, plan_initial_focus, plan_status, plan_missing_workspaces,
};

verus! {

/// How long the engine pauses between two looks for newly launched windows.
pub const POLL_INTERVAL_MS: u64 = 50;

/// How long a background anchoring job pauses between two looks.
pub const ANCHOR_POLL_INTERVAL_MS: u64 = 25;

/// What a toggle, show or hide request asks for.
#[derive(Debug, Clone, Copy, PartialEq, Eq)]
pub enum Desired {
    Toggle,
    Show,
    Hide,
}

/// The end of a request that succeeded.
#[derive(Debug)]
pub enum Outcome {
    /// The scratchpad was shown with the windows it already had.
    Shown { name: String },
    /// Shown; its applications were launched a moment ago and have not appeared yet.
    LaunchPending { name: String },
    /// Shown; its applications were launched and a background job anchors their windows.
    LaunchScheduled { name: String },
    /// Shown; its applications were launched and all their windows anchored.
    LaunchedAndAnchored { name: String },
    /// Shown; its applications were launched but not all their windows appeared in time.
    Launched { name: String },
    /// Shown; it has no windows and launches nothing.
    ShownEmpty { name: String },
    AlreadyHidden { name: String },
    /// Hidden; the workspace and window it was shown from are focused again.
    Restored { name: String },
    /// Hidden; its origin is unknown or gone, so the previous workspace is focused.
    PreviousWorkspace { name: String },
    NoScratchpadFocused,
    Status { entries: Vec<StatusEntry> },
    Listed,
    Diagnosed { report: DoctorReport },
    Pong,
}

/// The result of a diagnosis.
#[derive(Debug)]
pub struct DoctorReport {
    pub niri_version: String,
    pub missing_workspaces: Vec<MissingWorkspace>,
    pub healthy: bool,
}

pub ghost enum OutcomeView {
    Shown { name: Seq<char> },
    LaunchPending { name: Seq<char> },
    LaunchScheduled { name: Seq<char> },
    LaunchedAndAnchored { name: Seq<char> },
    Launched { name: Seq<char> },
    ShownEmpty { name: Seq<char> },
    AlreadyHidden { name: Seq<char> },
    Restored { name: Seq<char> },
    PreviousWorkspace { name: Seq<char> },
    NoScratchpadFocused,
    Status { entries: Seq<StatusView> },
    Listed,
    Diagnosed { version: Seq<char>, missing: Seq<(Seq<char>, Seq<char>)>, healthy: bool },
    Pong,
}

impl View for Outcome {
    type V = OutcomeView;

    open spec fn view(&self) -> OutcomeView {
        match self {
            Outcome::Shown { name } => OutcomeView::Shown { name: name@ },
            Outcome::LaunchPending { name } => OutcomeView::LaunchPending { name: name@ },
            Outcome::LaunchScheduled { name } => OutcomeView::LaunchScheduled { name: name@ },
            Outcome::LaunchedAndAnchored { name } => OutcomeView::LaunchedAndAnchored { name: name@ },
            Outcome::Launched { name } => OutcomeView::Launched { name: name@ },
            Outcome::ShownEmpty { name } => OutcomeView::ShownEmpty { name: name@ },
            Outcome::AlreadyHidden { name } => OutcomeView::AlreadyHidden { name: name@ },
            Outcome::Restored { name } => OutcomeView::Restored { name: name@ },
            Outcome::PreviousWorkspace { name } => OutcomeView::PreviousWorkspace { name: name@ },
            Outcome::NoScratchpadFocused => OutcomeView::NoScratchpadFocused,
            Outcome::Status { entries } => OutcomeView::Status { entries: status_view(entries@) },
            Outcome::Listed => OutcomeView::Listed,
            Outcome::Diagnosed { report } => OutcomeView::Diagnosed {
                version: report.niri_version@,
                missing: missing_view(report.missing_workspaces@),
                healthy: report.healthy,
            },
            Outcome::Pong => OutcomeView::Pong,
        }
    }
}

pub open spec fn result_view(r: Result<Outcome, EngineError>) -> Result<OutcomeView, ErrorView> {
    match r {
        Ok(o) => Ok(o@),
        Err(e) => Err(e@),
    }
}

/// What the driver hands back to the engine.
#[derive(Debug)]
pub enum Event {
    /// A new control request; accepted when the engine is idle.
    Request(ControlRequest),
    Workspaces(Result<Vec<WorkspaceInfo>, String>),
    Windows(Result<Vec<WindowInfo>, String>),
    Version(Result<String, String>),
    Saved(Result<(), String>),
    Performed(Result<(), String>),
    Slept,
    AnchorStarted,
}

pub ghost enum EventView {
    Request(RequestView),
    Workspaces(Result<Seq<WorkspaceView>, Seq<char>>),
    Windows(Result<Seq<WindowView>, Seq<char>>),
    Version(Result<Seq<char>, Seq<char>>),
    Saved(Result<(), Seq<char>>),
    Performed(Result<(), Seq<char>>),
    Slept,
    AnchorStarted,
}

pub open spec fn text_result<T, V>(r: Result<T, String>, f: spec_fn(T) -> V) -> Result<V, Seq<char>> {
    match r {
        Ok(v) => Ok(f(v)),
        Err(m) => Err(m@),
    }
}

impl View for Event {
    type V = EventView;

    open spec fn view(&self) -> EventView {
        match self {
            Event::Request(r) => EventView::Request(r@),
            Event::Workspaces(r) => EventView::Workspaces(text_result(*r, |v: Vec<WorkspaceInfo>| workspaces_view(v@))),
            Event::Windows(r) => EventView::Windows(text_result(*r, |v: Vec<WindowInfo>| windows_view(v@))),
            Event::Version(r) => EventView::Version(text_result(*r, |v: String| v@)),
            Event::Saved(r) => EventView::Saved(text_result(*r, |v: ()| v)),
            Event::Performed(r) => EventView::Performed(text_result(*r, |v: ()| v)),
            Event::Slept => EventView::Slept,
            Event::AnchorStarted => EventView::AnchorStarted,
        }
    }
}

// ---------------------------------------------------------------------------------------------
// The background anchoring job.

#[derive(Debug, Clone, Copy, PartialEq, Eq)]
pub enum AnchorStage {
    NotStarted,
    Sleeping,
    AwaitingWindows,
    Moving,
    AwaitingWorkspaces,
    Focusing,
    Finished,
}

/// Anchors the windows of freshly launched applications to their scratchpad, away from the
/// request that launched them; once all are anchored it applies the initial focus, but only
/// while the scratchpad is still the focused workspace.
#[derive(Debug)]
pub struct AnchorJob {
    name: String,
    pad: ScratchpadConfig,
    before: Vec<u64>,
    expected: usize,
    timeout_ms: u64,
    anchored: Vec<u64>,
    latest: Vec<WindowInfo>,
    deadline: u64,
    stage: AnchorStage,
}

pub ghost struct AnchorJobView {
    pub name: Seq<char>,
    pub pad: PadView,
    pub before: Seq<u64>,
    pub expected: nat,
    pub timeout_ms: u64,
    pub anchored: Seq<u64>,
    pub latest: Seq<WindowView>,
    pub deadline: u64,
    pub stage: AnchorStage,
}

impl View for AnchorJob {
    type V = AnchorJobView;

    closed spec fn view(&self) -> AnchorJobView {
        AnchorJobView {
            name: self.name@,
            pad: self.pad@,
            before: self.before@,
            expected: self.expected as nat,
            timeout_ms: self.timeout_ms,
            anchored: self.anchored@,
            latest: windows_view(self.latest@),
            deadline: self.deadline,
            stage: self.stage,
        }
    }
}

/// What the anchoring job's driver hands back.
#[derive(Debug)]
pub enum AnchorEvent {
    Start,
    Slept,
    Windows(Result<Vec<WindowInfo>, String>),
    Workspaces(Result<Vec<WorkspaceInfo>, String>),
    Performed(Result<(), String>),
}

pub ghost enum AnchorEventView {
    Start,
    Slept,
    Windows(Result<Seq<WindowView>, Seq<char>>),
    Workspaces(Result<Seq<WorkspaceView>, Seq<char>>),
    Performed(Result<(), Seq<char>>),
}

impl View for AnchorEvent {
    type V = AnchorEventView;

    open spec fn view(&self) -> AnchorEventView {
        match self {
            AnchorEvent::Start => AnchorEventView::Start,
            AnchorEvent::Slept => AnchorEventView::Slept,
            AnchorEvent::Windows(r) => AnchorEventView::Windows(text_result(*r, |v: Vec<WindowInfo>| windows_view(v@))),
            AnchorEvent::Workspaces(r) => AnchorEventView::Workspaces(text_result(*r, |v: Vec<WorkspaceInfo>| workspaces_view(v@))),
            AnchorEvent::Performed(r) => AnchorEventView::Performed(text_result(*r, |v: ()| v)),
        }
    }
}

/// What the anchoring job needs next.
#[derive(Debug)]
pub enum AnchorEffect {
    Sleep(u64),
    QueryWindows,
    QueryWorkspaces,
    Perform(Vec<CompositorAction>),
    Finish(Result<(), EngineError>),
}

pub ghost enum AnchorEffectView {
    Sleep(u64),
    QueryWindows,
    QueryWorkspaces,
    Perform(Seq<ActionView>),
    Finish(Result<(), ErrorView>),
}

impl View for AnchorEffect {
    type V = AnchorEffectView;

    open spec fn view(&self) -> AnchorEffectView {
        match self {
            AnchorEffect::Sleep(ms) => AnchorEffectView::Sleep(*ms),
            AnchorEffect::QueryWindows => AnchorEffectView::QueryWindows,
            AnchorEffect::QueryWorkspaces => AnchorEffectView::QueryWorkspaces,
            AnchorEffect::Perform(a) => AnchorEffectView::Perform(actions_view(a@)),
            AnchorEffect::Finish(r) => AnchorEffectView::Finish(match r {
                Ok(()) => Ok(()),
                Err(e) => Err(e@),
            }),
        }
    }
}

/// The deadline `timeout` milliseconds after `now`, saturating at the end of time.
pub open spec fn deadline_after(now: u64, timeout: u64) -> u64 {
    if now + timeout > u64::MAX {
        u64::MAX
    } else {
        (now + timeout) as u64
    }
}

/// The scratchpad is the focused workspace.
pub open spec fn still_visible(pad: PadView, ws: Seq<WorkspaceView>) -> bool {
    exists|k: int| 0 <= k < ws.len() && (#[trigger] ws[k]).is_focused && ws[k].name == Some(pad.workspace)
}

pub open spec fn job_with(j: AnchorJobView, stage: AnchorStage) -> AnchorJobView {
    AnchorJobView { stage, ..j }
}

pub open spec fn job_finish(j: AnchorJobView, r: Result<(), ErrorView>) -> (AnchorJobView, AnchorEffectView) {
    (job_with(j, AnchorStage::Finished), AnchorEffectView::Finish(r))
}

/// The end of one look: pause and look again before the deadline; after it, stop unless every
/// window was anchored, and in that case look at the workspaces.
pub open spec fn job_continue(j: AnchorJobView, now: u64) -> (AnchorJobView, AnchorEffectView) {
    if now < j.deadline {
        (job_with(j, AnchorStage::Sleeping), AnchorEffectView::Sleep(ANCHOR_POLL_INTERVAL_MS))
    } else if j.anchored.len() < j.expected {
        job_finish(j, Ok(()))
    } else {
        (job_with(j, AnchorStage::AwaitingWorkspaces), AnchorEffectView::QueryWorkspaces)
    }
}

/// One step of the anchoring job.
pub open spec fn job_next(j: AnchorJobView, ev: AnchorEventView, now: u64) -> (AnchorJobView, AnchorEffectView) {
    match (j.stage, ev) {
        (AnchorStage::NotStarted, AnchorEventView::Start) =>
            job_continue(AnchorJobView { deadline: deadline_after(now, j.timeout_ms), ..j }, now),
        (AnchorStage::Sleeping, AnchorEventView::Slept) =>
            (job_with(j, AnchorStage::AwaitingWindows), AnchorEffectView::QueryWindows),
        (AnchorStage::AwaitingWindows, AnchorEventView::Windows(Err(m))) =>
            job_finish(j, Err(ErrorView::Compositor { message: m })),
        (AnchorStage::AwaitingWindows, AnchorEventView::Windows(Ok(wins))) =>
            if !patterns_compile(j.pad) {
                job_finish(
                    AnchorJobView { latest: wins, ..j },
                    Err(ErrorView::InvalidPattern {
                        name: j.name,
                        field: failing_field(j.pad),
                        text: regex_error_text(failing_pattern(j.pad)),
                    }),
                )
            } else {
                let fresh = fresh_ids(j.pad, wins, j.before, j.anchored);
                (
                    AnchorJobView {
                        latest: wins,
                        anchored: with_ids(j.anchored, fresh),
                        stage: AnchorStage::Moving,
                        ..j
                    },
                    AnchorEffectView::Perform(anchor_moves(j.pad, fresh)),
                )
            },
        (AnchorStage::Moving, AnchorEventView::Performed(Err(m))) =>
            job_finish(j, Err(ErrorView::Compositor { message: m })),
        (AnchorStage::Moving, AnchorEventView::Performed(Ok(()))) =>
            if j.anchored.len() >= j.expected {
                (job_with(j, AnchorStage::AwaitingWorkspaces), AnchorEffectView::QueryWorkspaces)
            } else {
                job_continue(j, now)
            },
        (AnchorStage::AwaitingWorkspaces, AnchorEventView::Workspaces(Err(m))) =>
            job_finish(j, Err(ErrorView::Compositor { message: m })),
        (AnchorStage::AwaitingWorkspaces, AnchorEventView::Workspaces(Ok(ws))) =>
            if still_visible(j.pad, ws) && j.pad.initial_focus_app_id is Some {
                if pattern_fails(j.pad.initial_focus_app_id) {
                    job_finish(j, Err(ErrorView::InvalidPattern {
                        name: j.name,
                        field: PatternField::InitialFocusAppId,
                        text: regex_error_text(j.pad.initial_focus_app_id->0),
                    }))
                } else {
                    (
                        job_with(j, AnchorStage::Focusing),
                        AnchorEffectView::Perform(initial_focus(j.pad, j.latest, j.anchored)),
                    )
                }
            } else {
                job_finish(j, Ok(()))
            },
        (AnchorStage::Focusing, AnchorEventView::Performed(Err(m))) =>
            job_finish(j, Err(ErrorView::Compositor { message: m })),
        (AnchorStage::Focusing, AnchorEventView::Performed(Ok(()))) => job_finish(j, Ok(())),
        _ => job_finish(j, Err(ErrorView::UnexpectedEvent)),
    }
}

fn ids_of(windows: &Vec<WindowInfo>) -> (r: Vec<u64>)
    ensures
        r@ == window_ids(windows_view(windows@)),
{
    let mut r: Vec<u64> = Vec::new();
    let n = windows.len();
    let mut i: usize = 0;
    while i < n
        invariant
            n == windows@.len(),
            i <= n,
            r@ == windows_view(windows@).take(i as int).map_values(|w: WindowView| w.id),
        decreases n - i,
    {
        r.push(windows[i].id);
        assert(r@ =~= windows_view(windows@).take(i + 1).map_values(|w: WindowView| w.id));
        i = i + 1;
    }
    assert(windows_view(windows@).take(n as int) =~= windows_view(windows@));
    r
}

fn is_still_visible(pad: &ScratchpadConfig, workspaces: &Vec<WorkspaceInfo>) -> (r: bool)
    ensures
        r == still_visible(pad@, workspaces_view(workspaces@)),
{
    let ghost wsv = workspaces_view(workspaces@);
    let n = workspaces.len();
    let mut k: usize = 0;
    while k < n
        invariant
            n == workspaces@.len(),
            wsv == workspaces_view(workspaces@),
            k <= n,
            forall|q: int| 0 <= q < k ==> !((#[trigger] wsv[q]).is_focused && wsv[q].name == Some(pad@.workspace)),
        decreases n - k,
    {
        if workspaces[k].is_focused && opt_str_eq(&workspaces[k].name, pad.workspace.as_str()) {
            assert(wsv[k as int].is_focused && wsv[k as int].name == Some(pad@.workspace));
            return true;
        }
        k = k + 1;
    }
    false
}

impl AnchorJob {
    pub open spec fn stage(&self) -> AnchorStage {
        self@.stage
    }

    /// A job that anchors `expected` new windows of the scratchpad `name`, whose configuration
    /// is `pad`, given the windows that existed before the launch, within `timeout_ms` of its
    /// start.
    pub fn new(name: String, pad: ScratchpadConfig, before: Vec<u64>, expected: usize, timeout_ms: u64) -> (r: AnchorJob)
        ensures
            r@ == (AnchorJobView {
                name: name@,
                pad: pad@,
                before: before@,
                expected: expected as nat,
                timeout_ms,
                anchored: Seq::empty(),
                latest: Seq::empty(),
                deadline: 0,
                stage: AnchorStage::NotStarted,
            }),
    {
        let r = AnchorJob {
            name,
            pad,
            before,
            expected,
            timeout_ms,
            anchored: Vec::new(),
            latest: Vec::new(),
            deadline: 0,
            stage: AnchorStage::NotStarted,
        };
        assert(windows_view(r.latest@) =~= Seq::<WindowView>::empty());
        r
    }

    /// The workspace the job anchors windows to.
    pub fn workspace(&self) -> (r: &String)
        ensures
            r@ == self@.pad.workspace,
    {
        &self.pad.workspace
    }

    fn finish(&mut self, r: Result<(), EngineError>) -> (eff: AnchorEffect)
        ensures
            (final(self)@, eff@) == job_finish(old(self)@, match r {
                Ok(()) => Ok(()),
                Err(e) => Err(e@),
            }),
    {
        self.stage = AnchorStage::Finished;
        AnchorEffect::Finish(r)
    }

    fn continue_after_look(&mut self, now: u64) -> (eff: AnchorEffect)
        ensures
            (final(self)@, eff@) == job_continue(old(self)@, now),
    {
        if now < self.deadline {
            self.stage = AnchorStage::Sleeping;
            AnchorEffect::Sleep(ANCHOR_POLL_INTERVAL_MS)
        } else if self.anchored.len() < self.expected {
            self.finish(Ok(()))
        } else {
            self.stage = AnchorStage::AwaitingWorkspaces;
            AnchorEffect::QueryWorkspaces
        }
    }

    /// Takes the next event, at time `now` in milliseconds, and says what the job needs next.
    pub fn step(&mut self, event: AnchorEvent, now: u64) -> (eff: AnchorEffect)
        ensures
            (final(self)@, eff@) == job_next(old(self)@, event@, now),
    {
        match (self.stage, event) {
            (AnchorStage::NotStarted, AnchorEvent::Start) => {
                self.deadline = now.saturating_add(self.timeout_ms);
                self.continue_after_look(now)
            },
            (AnchorStage::Sleeping, AnchorEvent::Slept) => {
                self.stage = AnchorStage::AwaitingWindows;
                AnchorEffect::QueryWindows
            },
            (AnchorStage::AwaitingWindows, AnchorEvent::Windows(Err(m))) => {
                self.finish(Err(EngineError::Compositor { message: m }))
            },
            (AnchorStage::AwaitingWindows, AnchorEvent::Windows(Ok(wins))) => {
                let round = plan_anchor_round(&self.pad, &wins, &self.before, &self.anchored);
                self.latest = wins;
                match round {
                    Err(error) => {
                        let field = failing_pattern_field(&self.pad);
                        let name = self.name.clone();
                        self.finish(Err(EngineError::InvalidPattern { name, field, error }))
                    },
                    Ok(round) => {
                        self.anchored = round.anchored;
                        self.stage = AnchorStage::Moving;
                        AnchorEffect::Perform(round.moves)
                    },
                }
            },
            (AnchorStage::Moving, AnchorEvent::Performed(Err(m))) => {
                self.finish(Err(EngineError::Compositor { message: m }))
            },
            (AnchorStage::Moving, AnchorEvent::Performed(Ok(()))) => {
                if self.anchored.len() >= self.expected {
                    self.stage = AnchorStage::AwaitingWorkspaces;
                    AnchorEffect::QueryWorkspaces
                } else {
                    self.continue_after_look(now)
                }
            },
            (AnchorStage::AwaitingWorkspaces, AnchorEvent::Workspaces(Err(m))) => {
                self.finish(Err(EngineError::Compositor { message: m }))
            },
            (AnchorStage::AwaitingWorkspaces, AnchorEvent::Workspaces(Ok(ws))) => {
                if is_still_visible(&self.pad, &ws) && self.pad.initial_focus_app_id.is_some() {
                    match plan_initial_focus(&self.pad, &self.latest, &self.anchored) {
                        Err(error) => {
                            let name = self.name.clone();
                            self.finish(Err(EngineError::InvalidPattern {
                                name,
                                field: PatternField::InitialFocusAppId,
                                error,
                            }))
                        },
                        Ok(actions) => {
                            self.stage = AnchorStage::Focusing;
                            AnchorEffect::Perform(actions)
                        },
                    }
                } else {
                    self.finish(Ok(()))
                }
            },
            (AnchorStage::Focusing, AnchorEvent::Performed(Err(m))) => {
                self.finish(Err(EngineError::Compositor { message: m }))
            },
            (AnchorStage::Focusing, AnchorEvent::Performed(Ok(()))) => self.finish(Ok(())),
            _ => self.finish(Err(EngineError::UnexpectedEvent)),
        }
    }
}


// ---------------------------------------------------------------------------------------------
// The engine.

/// What the engine needs next.
#[derive(Debug)]
pub enum Effect {
    QueryWorkspaces,
    QueryWindows,
    QueryVersion,
    /// Write `state` to the state file.
    SaveState,
    /// Perform the actions in order, stopping at the first that fails.
    Perform(Vec<CompositorAction>),
    /// Pause for this many milliseconds.
    Sleep(u64),
    /// Run this anchoring job in the background.
    StartAnchor(AnchorJob),
    /// The request is answered; the engine is idle again.
    Reply(Result<Outcome, EngineError>),
}

pub ghost enum EffectView {
    QueryWorkspaces,
    QueryWindows,
    QueryVersion,
    SaveState,
    Perform(Seq<ActionView>),
    Sleep(u64),
    StartAnchor(AnchorJobView),
    Reply(Result<OutcomeView, ErrorView>),
}

impl View for Effect {
    type V = EffectView;

    open spec fn view(&self) -> EffectView {
        match self {
            Effect::QueryWorkspaces => EffectView::QueryWorkspaces,
            Effect::QueryWindows => EffectView::QueryWindows,
            Effect::QueryVersion => EffectView::QueryVersion,
            Effect::SaveState => EffectView::SaveState,
            Effect::Perform(a) => EffectView::Perform(actions_view(a@)),
            Effect::Sleep(ms) => EffectView::Sleep(*ms),
            Effect::StartAnchor(j) => EffectView::StartAnchor(j@),
            Effect::Reply(r) => EffectView::Reply(result_view(*r)),
        }
    }
}

/// Progress of the look for newly launched windows.
#[derive(Debug)]
struct Poll {
    before: Vec<u64>,
    anchored: Vec<u64>,
    expected: usize,
    deadline: u64,
}

pub ghost struct PollView {
    pub before: Seq<u64>,
    pub anchored: Seq<u64>,
    pub expected: nat,
    pub deadline: u64,
}

impl View for Poll {
    type V = PollView;

    closed spec fn view(&self) -> PollView {
        PollView {
            before: self.before@,
            anchored: self.anchored@,
            expected: self.expected as nat,
            deadline: self.deadline,
        }
    }
}

/// What the engine is waiting for.
#[derive(Debug)]
enum Phase {
    Idle,
    TransitionWorkspaces { name: String, desired: Desired },
    TransitionWindows { name: String, desired: Desired, workspaces: Vec<WorkspaceInfo> },
    HideAllWorkspaces,
    HideAllWindows { name: String, workspaces: Vec<WorkspaceInfo> },
    StatusWorkspaces { only: Option<String> },
    StatusWindows { only: Option<String>, workspaces: Vec<WorkspaceInfo> },
    DoctorVersion,
    DoctorWorkspaces { version: String },
    ShowSaving { name: String, workspaces: Vec<WorkspaceInfo>, windows: Vec<WindowInfo> },
    HideSaving { name: String, origin: Option<ReturnTarget>, workspaces: Vec<WorkspaceInfo>, windows: Vec<WindowInfo> },
    Presenting { name: String, has_windows: bool, before: Vec<u64> },
    Spawning { name: String, before: Vec<u64>, expected: usize },
    StartingAnchor { name: String },
    Sleeping { name: String, poll: Poll },
    PollWindows { name: String, poll: Poll },
    Moving { name: String, poll: Poll, latest: Vec<WindowInfo> },
    Focusing { name: String },
    Hiding { name: String, restored: bool },
}

pub ghost enum PhaseView {
    Idle,
    TransitionWorkspaces { name: Seq<char>, desired: Desired },
    TransitionWindows { name: Seq<char>, desired: Desired, workspaces: Seq<WorkspaceView> },
    HideAllWorkspaces,
    HideAllWindows { name: Seq<char>, workspaces: Seq<WorkspaceView> },
    StatusWorkspaces { only: Option<Seq<char>> },
    StatusWindows { only: Option<Seq<char>>, workspaces: Seq<WorkspaceView> },
    DoctorVersion,
    DoctorWorkspaces { version: Seq<char> },
    ShowSaving { name: Seq<char>, workspaces: Seq<WorkspaceView>, windows: Seq<WindowView> },
    HideSaving { name: Seq<char>, origin: Option<ReturnTargetView>, workspaces: Seq<WorkspaceView>, windows: Seq<WindowView> },
    Presenting { name: Seq<char>, has_windows: bool, before: Seq<u64> },
    Spawning { name: Seq<char>, before: Seq<u64>, expected: nat },
    StartingAnchor { name: Seq<char> },
    Sleeping { name: Seq<char>, poll: PollView },
    PollWindows { name: Seq<char>, poll: PollView },
    Moving { name: Seq<char>, poll: PollView, latest: Seq<WindowView> },
    Focusing { name: Seq<char> },
    Hiding { name: Seq<char>, restored: bool },
}

pub open spec fn origin_view(o: Option<ReturnTarget>) -> Option<ReturnTargetView> {
    match o {
        Some(t) => Some(t@),
        None => None,
    }
}

impl View for Phase {
    type V = PhaseView;

    closed spec fn view(&self) -> PhaseView {
        match self {
            Phase::Idle => PhaseView::Idle,
            Phase::TransitionWorkspaces { name, desired } => PhaseView::TransitionWorkspaces { name: name@, desired: *desired },
            Phase::TransitionWindows { name, desired, workspaces } =>
                PhaseView::TransitionWindows { name: name@, desired: *desired, workspaces: workspaces_view(workspaces@) },
            Phase::HideAllWorkspaces => PhaseView::HideAllWorkspaces,
            Phase::HideAllWindows { name, workspaces } =>
                PhaseView::HideAllWindows { name: name@, workspaces: workspaces_view(workspaces@) },
            Phase::StatusWorkspaces { only } => PhaseView::StatusWorkspaces { only: opt_view(*only) },
            Phase::StatusWindows { only, workspaces } =>
                PhaseView::StatusWindows { only: opt_view(*only), workspaces: workspaces_view(workspaces@) },
            Phase::DoctorVersion => PhaseView::DoctorVersion,
            Phase::DoctorWorkspaces { version } => PhaseView::DoctorWorkspaces { version: version@ },
            Phase::ShowSaving { name, workspaces, windows } => PhaseView::ShowSaving {
                name: name@,
                workspaces: workspaces_view(workspaces@),
                windows: windows_view(windows@),
            },
            Phase::HideSaving { name, origin, workspaces, windows } => PhaseView::HideSaving {
                name: name@,
                origin: origin_view(*origin),
                workspaces: workspaces_view(workspaces@),
                windows: windows_view(windows@),
            },
            Phase::Presenting { name, has_windows, before } =>
                PhaseView::Presenting { name: name@, has_windows: *has_windows, before: before@ },
            Phase::Spawning { name, before, expected } =>
                PhaseView::Spawning { name: name@, before: before@, expected: *expected as nat },
            Phase::StartingAnchor { name } => PhaseView::StartingAnchor { name: name@ },
            Phase::Sleeping { name, poll } => PhaseView::Sleeping { name: name@, poll: poll@ },
            Phase::PollWindows { name, poll } => PhaseView::PollWindows { name: name@, poll: poll@ },
            Phase::Moving { name, poll, latest } =>
                PhaseView::Moving { name: name@, poll: poll@, latest: windows_view(latest@) },
            Phase::Focusing { name } => PhaseView::Focusing { name: name@ },
            Phase::Hiding { name, restored } => PhaseView::Hiding { name: name@, restored: *restored },
        }
    }
}

/// The scratchpad daemon's engine: the configuration, the persisted state, the pending
/// launches and the request in progress.
#[derive(Debug)]
pub struct Engine {
    pub config: Config,
    pub state: PersistedState,
    /// For each scratchpad whose applications were launched, the time until which a new launch
    /// is suppressed.
    pending_until: NamedMap<u64>,
    phase: Phase,
}

pub ghost struct EngineView {
    pub pads: Seq<(Seq<char>, PadView)>,
    pub launch_timeout_ms: u64,
    pub background_anchor: bool,
    pub origins: Map<Seq<char>, ReturnTargetView>,
    pub pending_until: Map<Seq<char>, u64>,
    pub phase: PhaseView,
}

impl View for Engine {
    type V = EngineView;

    closed spec fn view(&self) -> EngineView {
        EngineView {
            pads: self.config.pads(),
            launch_timeout_ms: self.config.daemon.launch_timeout_ms,
            background_anchor: self.config.daemon.background_anchor,
            origins: self.state.origins@,
            pending_until: self.pending_until@,
            phase: self.phase@,
        }
    }
}

pub open spec fn window_ids(wins: Seq<WindowView>) -> Seq<u64> {
    wins.map_values(|w: WindowView| w.id)
}

/// The entries named `name`.
pub open spec fn entry_named(name: Seq<char>) -> spec_fn((Seq<char>, PadView)) -> bool {
    |e: (Seq<char>, PadView)| e.0 == name
}

/// The first scratchpad named `name`.
pub open spec fn pad_position(pads: Seq<(Seq<char>, PadView)>, name: Seq<char>) -> Option<int> {
    find_first(pads, entry_named(name))
}

pub proof fn lemma_pad_position(pads: Seq<(Seq<char>, PadView)>, name: Seq<char>)
    ensures
        match pad_position(pads, name) {
            Some(j) => 0 <= j < pads.len() && pads[j].0 == name
                && forall|k: int| 0 <= k < j ==> (#[trigger] pads[k]).0 != name,
            None => forall|k: int| 0 <= k < pads.len() ==> (#[trigger] pads[k]).0 != name,
        },
{
    let p = entry_named(name);
    crate::model::lemma_find_first(pads, p);
    match find_first(pads, p) {
        Some(j) => {
            assert(p(pads[j]));
            assert forall|k: int| 0 <= k < j implies (#[trigger] pads[k]).0 != name by {
                assert(!p(pads[k]));
            }
        },
        None => {
            assert forall|k: int| 0 <= k < pads.len() implies (#[trigger] pads[k]).0 != name by {
                assert(!p(pads[k]));
            }
        },
    }
}

pub open spec fn with_phase(e: EngineView, phase: PhaseView) -> EngineView {
    EngineView { phase, ..e }
}

pub open spec fn answer(e: EngineView, r: Result<OutcomeView, ErrorView>) -> (EngineView, EffectView) {
    (with_phase(e, PhaseView::Idle), EffectView::Reply(r))
}

pub open spec fn unknown(e: EngineView, name: Seq<char>) -> (EngineView, EffectView) {
    answer(e, Err(ErrorView::UnknownScratchpad { name }))
}

pub open spec fn failed(e: EngineView, message: Seq<char>) -> (EngineView, EffectView) {
    answer(e, Err(ErrorView::Compositor { message }))
}

/// A request for one scratchpad starts by asking for the workspaces, once the scratchpad is
/// known to exist.
pub open spec fn begin_transition(e: EngineView, name: Seq<char>, desired: Desired) -> (EngineView, EffectView) {
    if pad_position(e.pads, name) is None {
        unknown(e, name)
    } else {
        (with_phase(e, PhaseView::TransitionWorkspaces { name, desired }), EffectView::QueryWorkspaces)
    }
}

pub open spec fn on_request(e: EngineView, r: RequestView) -> (EngineView, EffectView) {
    match r {
        RequestView::Toggle { scratchpad } => begin_transition(e, scratchpad, Desired::Toggle),
        RequestView::Show { scratchpad } => begin_transition(e, scratchpad, Desired::Show),
        RequestView::Hide { scratchpad } => begin_transition(e, scratchpad, Desired::Hide),
        RequestView::HideAll => (with_phase(e, PhaseView::HideAllWorkspaces), EffectView::QueryWorkspaces),
        RequestView::Status { scratchpad } =>
            (with_phase(e, PhaseView::StatusWorkspaces { only: scratchpad }), EffectView::QueryWorkspaces),
        RequestView::List => answer(e, Ok(OutcomeView::Listed)),
        RequestView::Doctor => match config_issue(e.pads) {
            Some(issue) => answer(e, Err(ErrorView::InvalidConfig { issue })),
            None => (with_phase(e, PhaseView::DoctorVersion), EffectView::QueryVersion),
        },
        RequestView::Ping => answer(e, Ok(OutcomeView::Pong)),
    }
}

/// Hiding starts by forgetting the scratchpad's origin and saving the state.
pub open spec fn begin_hide(e: EngineView, name: Seq<char>, ws: Seq<WorkspaceView>, wins: Seq<WindowView>) -> (EngineView, EffectView) {
    let origin = if e.origins.contains_key(name) {
        Some(e.origins[name])
    } else {
        None
    };
    (
        EngineView {
            origins: e.origins.remove(name),
            phase: PhaseView::HideSaving { name, origin, workspaces: ws, windows: wins },
            ..e
        },
        EffectView::SaveState,
    )
}

/// Presenting a scratchpad asks the compositor for its presentation actions.
pub open spec fn present(e: EngineView, name: Seq<char>, ws: Seq<WorkspaceView>, wins: Seq<WindowView>) -> (EngineView, EffectView) {
    match pad_position(e.pads, name) {
        None => unknown(e, name),
        Some(i) => {
            let pad = e.pads[i].1;
            if !patterns_compile(pad) {
                answer(e, Err(ErrorView::InvalidPattern {
                    name,
                    field: failing_field(pad),
                    text: regex_error_text(failing_pattern(pad)),
                }))
            } else {
                (
                    with_phase(e, PhaseView::Presenting {
                        name,
                        has_windows: has_windows(pad, ws, wins),
                        before: window_ids(wins),
                    }),
                    EffectView::Perform(presentation(pad, ws, wins)),
                )
            }
        },
    }
}

/// Whether showing is what a request wants, given whether the scratchpad is visible.
pub open spec fn wants_show(desired: Desired, visible: bool) -> bool {
    match desired {
        Desired::Toggle => !visible,
        Desired::Show => true,
        Desired::Hide => false,
    }
}

/// With the snapshot at hand: show (recording the origin when the scratchpad is not already
/// focused), hide, or answer that it is already hidden.
pub open spec fn decide_transition(
    e: EngineView,
    name: Seq<char>,
    desired: Desired,
    ws: Seq<WorkspaceView>,
    wins: Seq<WindowView>,
) -> (EngineView, EffectView) {
    match pad_position(e.pads, name) {
        None => unknown(e, name),
        Some(i) => match focused_position(ws) {
            None => answer(e, Err(ErrorView::NoFocusedWorkspace)),
            Some(f) => {
                let visible = ws[f].name == Some(e.pads[i].1.workspace);
                if wants_show(desired, visible) {
                    if !visible {
                        (
                            EngineView {
                                origins: e.origins.insert(name, show_origin(e.pads, e.origins, ws[f], e.pads[i].1.workspace)),
                                phase: PhaseView::ShowSaving { name, workspaces: ws, windows: wins },
                                ..e
                            },
                            EffectView::SaveState,
                        )
                    } else {
                        present(e, name, ws, wins)
                    }
                } else if visible {
                    begin_hide(e, name, ws, wins)
                } else {
                    answer(e, Ok(OutcomeView::AlreadyHidden { name }))
                }
            },
        },
    }
}

/// After the presentation: done when the scratchpad had windows; otherwise launch its
/// applications unless launching is off or a launch is still pending.
pub open spec fn after_presentation(e: EngineView, name: Seq<char>, had_windows: bool, before: Seq<u64>, now: u64) -> (EngineView, EffectView) {
    if had_windows {
        answer(e, Ok(OutcomeView::Shown { name }))
    } else {
        match pad_position(e.pads, name) {
            None => unknown(e, name),
            Some(i) => {
                let pad = e.pads[i].1;
                if !pad.launch_if_missing {
                    answer(e, Ok(OutcomeView::ShownEmpty { name }))
                } else if e.pending_until.contains_key(name) && e.pending_until[name] > now {
                    answer(e, Ok(OutcomeView::LaunchPending { name }))
                } else {
                    (
                        with_phase(e, PhaseView::Spawning { name, before, expected: launch_commands(pad).len() }),
                        EffectView::Perform(spawn_actions(pad)),
                    )
                }
            },
        }
    }
}

/// Before the deadline, pause and look for the new windows again; after it, answer that the
/// applications were launched.
pub open spec fn poll_continue(e: EngineView, name: Seq<char>, poll: PollView, now: u64) -> (EngineView, EffectView) {
    if now < poll.deadline {
        (with_phase(e, PhaseView::Sleeping { name, poll }), EffectView::Sleep(POLL_INTERVAL_MS))
    } else {
        answer(e, Ok(OutcomeView::Launched { name }))
    }
}

/// After launching: mark the launch pending until the timeout, then either hand the anchoring
/// to a background job or look for the new windows here.
pub open spec fn after_spawn(e: EngineView, name: Seq<char>, before: Seq<u64>, expected: nat, now: u64) -> (EngineView, EffectView) {
    match pad_position(e.pads, name) {
        None => unknown(e, name),
        Some(i) => {
            let deadline = deadline_after(now, e.launch_timeout_ms);
            let e2 = EngineView { pending_until: e.pending_until.insert(name, deadline), ..e };
            if e.background_anchor && e.launch_timeout_ms != 0 {
                (
                    with_phase(e2, PhaseView::StartingAnchor { name }),
                    EffectView::StartAnchor(AnchorJobView {
                        name,
                        pad: e.pads[i].1,
                        before,
                        expected,
                        timeout_ms: e.launch_timeout_ms,
                        anchored: Seq::empty(),
                        latest: Seq::empty(),
                        deadline: 0,
                        stage: AnchorStage::NotStarted,
                    }),
                )
            } else {
                poll_continue(e2, name, PollView { before, anchored: Seq::empty(), expected, deadline }, now)
            }
        },
    }
}

/// A look at the windows: anchor those that are new.
pub open spec fn after_poll_windows(e: EngineView, name: Seq<char>, poll: PollView, wins: Seq<WindowView>) -> (EngineView, EffectView) {
    match pad_position(e.pads, name) {
        None => unknown(e, name),
        Some(i) => {
            let pad = e.pads[i].1;
            if !patterns_compile(pad) {
                answer(e, Err(ErrorView::InvalidPattern {
                    name,
                    field: failing_field(pad),
                    text: regex_error_text(failing_pattern(pad)),
                }))
            } else {
                let fresh = fresh_ids(pad, wins, poll.before, poll.anchored);
                (
                    with_phase(e, PhaseView::Moving {
                        name,
                        poll: PollView { anchored: with_ids(poll.anchored, fresh), ..poll },
                        latest: wins,
                    }),
                    EffectView::Perform(anchor_moves(pad, fresh)),
                )
            }
        },
    }
}

/// After the anchoring moves: once every launched application has a window, apply the
/// initial focus; otherwise keep looking.
pub open spec fn after_moves(e: EngineView, name: Seq<char>, poll: PollView, latest: Seq<WindowView>, now: u64) -> (EngineView, EffectView) {
    if poll.anchored.len() >= poll.expected {
        match pad_position(e.pads, name) {
            None => unknown(e, name),
            Some(i) => {
                let pad = e.pads[i].1;
                if pattern_fails(pad.initial_focus_app_id) {
                    answer(e, Err(ErrorView::InvalidPattern {
                        name,
                        field: PatternField::InitialFocusAppId,
                        text: regex_error_text(pad.initial_focus_app_id->0),
                    }))
                } else {
                    (with_phase(e, PhaseView::Focusing { name }), EffectView::Perform(initial_focus(pad, latest, poll.anchored)))
                }
            },
        }
    } else {
        poll_continue(e, name, poll, now)
    }
}

/// Hide-all hides the scratchpad whose workspace is focused, if any.
pub open spec fn hide_all_target(pads: Seq<(Seq<char>, PadView)>, ws: Seq<WorkspaceView>) -> Option<int> {
    match focused_position(ws) {
        Some(f) => match ws[f].name {
            Some(fname) => find_first(pads, |e: (Seq<char>, PadView)| e.1.workspace == fname),
            None => None,
        },
        None => None,
    }
}

/// One step of the engine: the state after the event and what the engine needs next.
pub open spec fn engine_next(e: EngineView, ev: EventView, now: u64) -> (EngineView, EffectView) {
    match (e.phase, ev) {
        (PhaseView::Idle, EventView::Request(r)) => on_request(e, r),
        (PhaseView::TransitionWorkspaces { name, desired }, EventView::Workspaces(Ok(ws))) =>
            (with_phase(e, PhaseView::TransitionWindows { name, desired, workspaces: ws }), EffectView::QueryWindows),
        (PhaseView::TransitionWorkspaces { .. }, EventView::Workspaces(Err(m))) => failed(e, m),
        (PhaseView::TransitionWindows { name, desired, workspaces }, EventView::Windows(Ok(wins))) =>
            decide_transition(e, name, desired, workspaces, wins),
        (PhaseView::TransitionWindows { .. }, EventView::Windows(Err(m))) => failed(e, m),
        (PhaseView::ShowSaving { name, workspaces, windows }, EventView::Saved(Ok(()))) =>
            present(e, name, workspaces, windows),
        (PhaseView::ShowSaving { .. }, EventView::Saved(Err(m))) => answer(e, Err(ErrorView::Save { message: m })),
        (PhaseView::Presenting { name, has_windows, before }, EventView::Performed(Ok(()))) =>
            after_presentation(e, name, has_windows, before, now),
        (PhaseView::Presenting { .. }, EventView::Performed(Err(m))) => failed(e, m),
        (PhaseView::Spawning { name, before, expected }, EventView::Performed(Ok(()))) =>
            after_spawn(e, name, before, expected, now),
        (PhaseView::Spawning { .. }, EventView::Performed(Err(m))) => failed(e, m),
        (PhaseView::StartingAnchor { name }, EventView::AnchorStarted) =>
            answer(e, Ok(OutcomeView::LaunchScheduled { name })),
        (PhaseView::Sleeping { name, poll }, EventView::Slept) =>
            (with_phase(e, PhaseView::PollWindows { name, poll }), EffectView::QueryWindows),
        (PhaseView::PollWindows { name, poll }, EventView::Windows(Ok(wins))) => after_poll_windows(e, name, poll, wins),
        (PhaseView::PollWindows { .. }, EventView::Windows(Err(m))) => failed(e, m),
        (PhaseView::Moving { name, poll, latest }, EventView::Performed(Ok(()))) => after_moves(e, name, poll, latest, now),
        (PhaseView::Moving { .. }, EventView::Performed(Err(m))) => failed(e, m),
        (PhaseView::Focusing { name }, EventView::Performed(Ok(()))) =>
            answer(e, Ok(OutcomeView::LaunchedAndAnchored { name })),
        (PhaseView::Focusing { .. }, EventView::Performed(Err(m))) => failed(e, m),
        (PhaseView::HideSaving { name, origin, workspaces, windows }, EventView::Saved(Ok(()))) => {
            let (actions, restored) = hiding(origin, workspaces, windows);
            (with_phase(e, PhaseView::Hiding { name, restored }), EffectView::Perform(actions))
        },
        (PhaseView::HideSaving { .. }, EventView::Saved(Err(m))) => answer(e, Err(ErrorView::Save { message: m })),
        (PhaseView::Hiding { name, restored }, EventView::Performed(Ok(()))) =>
            answer(e, Ok(if restored {
                OutcomeView::Restored { name }
            } else {
                OutcomeView::PreviousWorkspace { name }
            })),
        (PhaseView::Hiding { .. }, EventView::Performed(Err(m))) => failed(e, m),
        (PhaseView::HideAllWorkspaces, EventView::Workspaces(Ok(ws))) => match hide_all_target(e.pads, ws) {
            Some(j) => (with_phase(e, PhaseView::HideAllWindows { name: e.pads[j].0, workspaces: ws }), EffectView::QueryWindows),
            None => answer(e, Ok(OutcomeView::NoScratchpadFocused)),
        },
        (PhaseView::HideAllWorkspaces, EventView::Workspaces(Err(m))) => failed(e, m),
        (PhaseView::HideAllWindows { name, workspaces }, EventView::Windows(Ok(wins))) => begin_hide(e, name, workspaces, wins),
        (PhaseView::HideAllWindows { .. }, EventView::Windows(Err(m))) => failed(e, m),
        (PhaseView::StatusWorkspaces { only }, EventView::Workspaces(Ok(ws))) =>
            (with_phase(e, PhaseView::StatusWindows { only, workspaces: ws }), EffectView::QueryWindows),
        (PhaseView::StatusWorkspaces { .. }, EventView::Workspaces(Err(m))) => failed(e, m),
        (PhaseView::StatusWindows { only, workspaces }, EventView::Windows(Ok(wins))) =>
            match status_outcome(e.pads, only, workspaces, wins, e.origins) {
                Ok(entries) => answer(e, Ok(OutcomeView::Status { entries })),
                Err(err) => answer(e, Err(err)),
            },
        (PhaseView::StatusWindows { .. }, EventView::Windows(Err(m))) => failed(e, m),
        (PhaseView::DoctorVersion, EventView::Version(Ok(version))) =>
            (with_phase(e, PhaseView::DoctorWorkspaces { version }), EffectView::QueryWorkspaces),
        (PhaseView::DoctorVersion, EventView::Version(Err(m))) => failed(e, m),
        (PhaseView::DoctorWorkspaces { version }, EventView::Workspaces(Ok(ws))) => {
            let missing = missing_workspaces(e.pads, ws);
            answer(e, Ok(OutcomeView::Diagnosed { version, missing, healthy: missing.len() == 0 }))
        },
        (PhaseView::DoctorWorkspaces { .. }, EventView::Workspaces(Err(m))) => failed(e, m),
        _ => answer(e, Err(ErrorView::UnexpectedEvent)),
    }
}

impl Engine {
    /// The configuration the engine was made with; no step changes it.
    pub closed spec fn configuration(&self) -> Config {
        self.config
    }

    /// An idle engine with this configuration and persisted state and no pending launch.
    pub fn new(config: Config, state: PersistedState) -> (r: Engine)
        ensures
            r.configuration() == config,
            r@.pads == config.pads(),
            r@.launch_timeout_ms == config.daemon.launch_timeout_ms,
            r@.background_anchor == config.daemon.background_anchor,
            r@.origins == state.origins@,
            r@.pending_until == Map::<Seq<char>, u64>::empty(),
            r@.phase == PhaseView::Idle,
    {
        Engine { config, state, pending_until: NamedMap::new(), phase: Phase::Idle }
    }

    /// Suppresses launching the applications of `name` until time `until_ms`, as a launch does.
    pub fn mark_launch_pending(&mut self, name: String, until_ms: u64)
        ensures
            final(self)@ == (EngineView { pending_until: old(self)@.pending_until.insert(name@, until_ms), ..old(self)@ }),
            final(self).configuration() == old(self).configuration(),
    {
        self.pending_until.insert(name, until_ms);
    }

    fn find_pad(&self, name: &str) -> (r: Option<usize>)
        ensures
            match r {
                Some(i) => i < self.config.scratchpads.ordered_entries().len() && pad_position(self.config.pads(), name@) == Some(i as int),
                None => pad_position(self.config.pads(), name@) is None,
            },
    {
        let ghost pv = self.config.pads();
        let ghost p = entry_named(name@);
        let n = self.config.scratchpads.entries().len();
        let mut i: usize = 0;
        while i < n
            invariant
                n == self.config.scratchpads.ordered_entries().len(),
                pv == self.config.pads(),
                p == entry_named(name@),
                i <= n,
                find_first(pv, p) == find_from(pv, p, i as int),
            decreases n - i,
        {
            assert(pv[i as int].0 == self.config.scratchpads.ordered_entries()[i as int].0@);
            if crate::text::str_eq(self.config.scratchpads.entries()[i].0.as_str(), name) {
                return Some(i);
            }
            i = i + 1;
        }
        None
    }

    fn find_pad_by_workspace(&self, workspace: &str) -> (r: Option<usize>)
        ensures
            match r {
                Some(i) => i < self.config.scratchpads.ordered_entries().len()
                    && find_first(self.config.pads(), |e: (Seq<char>, PadView)| e.1.workspace == workspace@) == Some(i as int),
                None => find_first(self.config.pads(), |e: (Seq<char>, PadView)| e.1.workspace == workspace@) is None,
            },
    {
        let ghost pv = self.config.pads();
        let ghost p = |e: (Seq<char>, PadView)| e.1.workspace == workspace@;
        let n = self.config.scratchpads.entries().len();
        let mut i: usize = 0;
        while i < n
            invariant
                n == self.config.scratchpads.ordered_entries().len(),
                pv == self.config.pads(),
                p == (|e: (Seq<char>, PadView)| e.1.workspace == workspace@),
                i <= n,
                find_first(pv, p) == find_from(pv, p, i as int),
            decreases n - i,
        {
            assert(pv[i as int].1 == self.config.scratchpads.ordered_entries()[i as int].1@);
            if crate::text::str_eq(self.config.scratchpads.entries()[i].1.workspace.as_str(), workspace) {
                return Some(i);
            }
            i = i + 1;
        }
        None
    }

    fn begin_transition(&mut self, name: String, desired: Desired) -> (eff: Effect)
        requires
            old(self)@.phase == PhaseView::Idle,
        ensures
            (final(self)@, eff@) == begin_transition(old(self)@, name@, desired),
            final(self).configuration() == old(self).configuration(),
    {
        match self.find_pad(name.as_str()) {
            None => Effect::Reply(Err(EngineError::UnknownScratchpad { name })),
            Some(_) => {
                self.phase = Phase::TransitionWorkspaces { name, desired };
                Effect::QueryWorkspaces
            },
        }
    }

    fn on_request(&mut self, request: ControlRequest) -> (eff: Effect)
        requires
            old(self)@.phase == PhaseView::Idle,
        ensures
            (final(self)@, eff@) == on_request(old(self)@, request@),
            final(self).configuration() == old(self).configuration(),
    {
        match request {
            ControlRequest::Toggle { scratchpad } => self.begin_transition(scratchpad, Desired::Toggle),
            ControlRequest::Show { scratchpad } => self.begin_transition(scratchpad, Desired::Show),
            ControlRequest::Hide { scratchpad } => self.begin_transition(scratchpad, Desired::Hide),
            ControlRequest::HideAll => {
                self.phase = Phase::HideAllWorkspaces;
                Effect::QueryWorkspaces
            },
            ControlRequest::Status { scratchpad } => {
                self.phase = Phase::StatusWorkspaces { only: scratchpad };
                Effect::QueryWorkspaces
            },
            ControlRequest::List => Effect::Reply(Ok(Outcome::Listed)),
            ControlRequest::Doctor => match self.config.validate() {
                Err(error) => Effect::Reply(Err(EngineError::InvalidConfig { error })),
                Ok(()) => {
                    self.phase = Phase::DoctorVersion;
                    Effect::QueryVersion
                },
            },
            ControlRequest::Ping => Effect::Reply(Ok(Outcome::Pong)),
        }
    }

    fn begin_hide(&mut self, name: String, workspaces: Vec<WorkspaceInfo>, windows: Vec<WindowInfo>) -> (eff: Effect)
        requires
            old(self)@.phase == PhaseView::Idle,
        ensures
            (final(self)@, eff@) == begin_hide(old(self)@, name@, workspaces_view(workspaces@), windows_view(windows@)),
            final(self).configuration() == old(self).configuration(),
    {
        let origin = self.state.origins.remove(name.as_str());
        self.phase = Phase::HideSaving { name, origin, workspaces, windows };
        Effect::SaveState
    }

    fn present(&mut self, name: String, workspaces: Vec<WorkspaceInfo>, windows: Vec<WindowInfo>) -> (eff: Effect)
        requires
            old(self)@.phase == PhaseView::Idle,
        ensures
            (final(self)@, eff@) == present(old(self)@, name@, workspaces_view(workspaces@), windows_view(windows@)),
            final(self).configuration() == old(self).configuration(),
    {
        let i = match self.find_pad(name.as_str()) {
            None => return Effect::Reply(Err(EngineError::UnknownScratchpad { name })),
            Some(i) => i,
        };
        assert(self.config.pads()[i as int].1 == self.config.scratchpads.ordered_entries()[i as int].1@);
        match plan_presentation(&self.config.scratchpads.entries()[i].1, &workspaces, &windows) {
            Err(error) => {
                let field = failing_pattern_field(&self.config.scratchpads.entries()[i].1);
                Effect::Reply(Err(EngineError::InvalidPattern { name, field, error }))
            },
            Ok(p) => {
                let before = ids_of(&windows);
                self.phase = Phase::Presenting { name, has_windows: p.has_windows, before };
                Effect::Perform(p.actions)
            },
        }
    }

    fn decide_transition(
        &mut self,
        name: String,
        desired: Desired,
        workspaces: Vec<WorkspaceInfo>,
        windows: Vec<WindowInfo>,
    ) -> (eff: Effect)
        requires
            old(self)@.phase == PhaseView::Idle,
        ensures
            (final(self)@, eff@) == decide_transition(old(self)@, name@, desired, workspaces_view(workspaces@), windows_view(windows@)),
            final(self).configuration() == old(self).configuration(),
    {
        let i = match self.find_pad(name.as_str()) {
            None => return Effect::Reply(Err(EngineError::UnknownScratchpad { name })),
            Some(i) => i,
        };
        assert(self.config.pads()[i as int].1 == self.config.scratchpads.ordered_entries()[i as int].1@);
        let f = match find_focused(&workspaces) {
            None => return Effect::Reply(Err(EngineError::NoFocusedWorkspace)),
            Some(f) => f,
        };
        assert(workspaces_view(workspaces@)[f as int] == workspaces@[f as int]@);
        let visible = opt_str_eq(&workspaces[f].name, self.config.scratchpads.entries()[i].1.workspace.as_str());
        let show = match desired {
            Desired::Toggle => !visible,
            Desired::Show => true,
            Desired::Hide => false,
        };
        if show {
            if !visible {
                let origin = compute_show_origin(
                    self.config.scratchpads.entries(),
                    &self.state.origins,
                    &workspaces[f],
                    self.config.scratchpads.entries()[i].1.workspace.as_str(),
                );
                self.state.origins.insert(name.clone(), origin);
                self.phase = Phase::ShowSaving { name, workspaces, windows };
                Effect::SaveState
            } else {
                self.present(name, workspaces, windows)
            }
        } else if visible {
            self.begin_hide(name, workspaces, windows)
        } else {
            Effect::Reply(Ok(Outcome::AlreadyHidden { name }))
        }
    }

    fn after_presentation(&mut self, name: String, had_windows: bool, before: Vec<u64>, now: u64) -> (eff: Effect)
        requires
            old(self)@.phase == PhaseView::Idle,
        ensures
            (final(self)@, eff@) == after_presentation(old(self)@, name@, had_windows, before@, now),
            final(self).configuration() == old(self).configuration(),
    {
        if had_windows {
            return Effect::Reply(Ok(Outcome::Shown { name }));
        }
        let i = match self.find_pad(name.as_str()) {
            None => return Effect::Reply(Err(EngineError::UnknownScratchpad { name })),
            Some(i) => i,
        };
        assert(self.config.pads()[i as int].1 == self.config.scratchpads.ordered_entries()[i as int].1@);
        let pad = &self.config.scratchpads.entries()[i].1;
        if !pad.launch_if_missing {
            return Effect::Reply(Ok(Outcome::ShownEmpty { name }));
        }
        let pending = match self.pending_until.get(name.as_str()) {
            Some(deadline) => *deadline > now,
            None => false,
        };
        if pending {
            return Effect::Reply(Ok(Outcome::LaunchPending { name }));
        }
        let spawns = plan_spawns(pad);
        let expected = spawns.len();
        self.phase = Phase::Spawning { name, before, expected };
        Effect::Perform(spawns)
    }

    fn poll_continue(&mut self, name: String, poll: Poll, now: u64) -> (eff: Effect)
        requires
            old(self)@.phase == PhaseView::Idle,
        ensures
            (final(self)@, eff@) == poll_continue(old(self)@, name@, poll@, now),
            final(self).configuration() == old(self).configuration(),
    {
        if now < poll.deadline {
            self.phase = Phase::Sleeping { name, poll };
            Effect::Sleep(POLL_INTERVAL_MS)
        } else {
            Effect::Reply(Ok(Outcome::Launched { name }))
        }
    }

    fn after_spawn(&mut self, name: String, before: Vec<u64>, expected: usize, now: u64) -> (eff: Effect)
        requires
            old(self)@.phase == PhaseView::Idle,
        ensures
            (final(self)@, eff@) == after_spawn(old(self)@, name@, before@, expected as nat, now),
            final(self).configuration() == old(self).configuration(),
    {
        let i = match self.find_pad(name.as_str()) {
            None => return Effect::Reply(Err(EngineError::UnknownScratchpad { name })),
            Some(i) => i,
        };
        assert(self.config.pads()[i as int].1 == self.config.scratchpads.ordered_entries()[i as int].1@);
        let timeout = self.config.daemon.launch_timeout_ms;
        let deadline = now.saturating_add(timeout);
        self.pending_until.insert(name.clone(), deadline);
        if self.config.daemon.background_anchor && timeout != 0 {
            let job = AnchorJob::new(name.clone(), self.config.scratchpads.entries()[i].1.copy(), before, expected, timeout);
            self.phase = Phase::StartingAnchor { name };
            Effect::StartAnchor(job)
        } else {
            let poll = Poll { before, anchored: Vec::new(), expected, deadline };
            assert(poll@.anchored =~= Seq::<u64>::empty());
            self.poll_continue(name, poll, now)
        }
    }

    fn after_poll_windows(&mut self, name: String, poll: Poll, windows: Vec<WindowInfo>) -> (eff: Effect)
        requires
            old(self)@.phase == PhaseView::Idle,
        ensures
            (final(self)@, eff@) == after_poll_windows(old(self)@, name@, poll@, windows_view(windows@)),
            final(self).configuration() == old(self).configuration(),
    {
        let i = match self.find_pad(name.as_str()) {
            None => return Effect::Reply(Err(EngineError::UnknownScratchpad { name })),
            Some(i) => i,
        };
        assert(self.config.pads()[i as int].1 == self.config.scratchpads.ordered_entries()[i as int].1@);
        match plan_anchor_round(&self.config.scratchpads.entries()[i].1, &windows, &poll.before, &poll.anchored) {
            Err(error) => {
                let field = failing_pattern_field(&self.config.scratchpads.entries()[i].1);
                Effect::Reply(Err(EngineError::InvalidPattern { name, field, error }))
            },
            Ok(round) => {
                let next = Poll {
                    before: poll.before,
                    anchored: round.anchored,
                    expected: poll.expected,
                    deadline: poll.deadline,
                };
                self.phase = Phase::Moving { name, poll: next, latest: windows };
                Effect::Perform(round.moves)
            },
        }
    }

    fn after_moves(&mut self, name: String, poll: Poll, latest: Vec<WindowInfo>, now: u64) -> (eff: Effect)
        requires
            old(self)@.phase == PhaseView::Idle,
        ensures
            (final(self)@, eff@) == after_moves(old(self)@, name@, poll@, windows_view(latest@), now),
            final(self).configuration() == old(self).configuration(),
    {
        if poll.anchored.len() >= poll.expected {
            let i = match self.find_pad(name.as_str()) {
                None => return Effect::Reply(Err(EngineError::UnknownScratchpad { name })),
                Some(i) => i,
            };
            assert(self.config.pads()[i as int].1 == self.config.scratchpads.ordered_entries()[i as int].1@);
            match plan_initial_focus(&self.config.scratchpads.entries()[i].1, &latest, &poll.anchored) {
                Err(error) => Effect::Reply(Err(EngineError::InvalidPattern {
                    name,
                    field: PatternField::InitialFocusAppId,
                    error,
                })),
                Ok(actions) => {
                    self.phase = Phase::Focusing { name };
                    Effect::Perform(actions)
                },
            }
        } else {
            self.poll_continue(name, poll, now)
        }
    }

    fn hide_all_target(&self, workspaces: &Vec<WorkspaceInfo>) -> (r: Option<usize>)
        ensures
            match r {
                Some(j) => j < self.config.scratchpads.ordered_entries().len() && hide_all_target(self.config.pads(), workspaces_view(workspaces@)) == Some(j as int),
                None => hide_all_target(self.config.pads(), workspaces_view(workspaces@)) is None,
            },
    {
        match find_focused(workspaces) {
            Some(f) => {
                assert(workspaces_view(workspaces@)[f as int] == workspaces@[f as int]@);
                match &workspaces[f].name {
                    Some(fname) => self.find_pad_by_workspace(fname.as_str()),
                    None => None,
                }
            },
            None => None,
        }
    }

    /// Takes the next event, at time `now` in milliseconds, and says what the engine needs
    /// next. Every reply leaves the engine idle.
    pub fn step(&mut self, event: Event, now: u64) -> (eff: Effect)
        ensures
            (final(self)@, eff@) == engine_next(old(self)@, event@, now),
            final(self).configuration() == old(self).configuration(),
    {
        let ghost e0 = self@;
        let mut phase = Phase::Idle;
        std::mem::swap(&mut phase, &mut self.phase);
        assert(self@ == with_phase(e0, PhaseView::Idle));
        match (phase, event) {
            (Phase::Idle, Event::Request(r)) => self.on_request(r),
            (Phase::TransitionWorkspaces { name, desired }, Event::Workspaces(Ok(ws))) => {
                self.phase = Phase::TransitionWindows { name, desired, workspaces: ws };
                Effect::QueryWindows
            },
            (Phase::TransitionWorkspaces { .. }, Event::Workspaces(Err(m))) =>
                Effect::Reply(Err(EngineError::Compositor { message: m })),
            (Phase::TransitionWindows { name, desired, workspaces }, Event::Windows(Ok(wins))) =>
                self.decide_transition(name, desired, workspaces, wins),
            (Phase::TransitionWindows { .. }, Event::Windows(Err(m))) =>
                Effect::Reply(Err(EngineError::Compositor { message: m })),
            (Phase::ShowSaving { name, workspaces, windows }, Event::Saved(Ok(()))) =>
                self.present(name, workspaces, windows),
            (Phase::ShowSaving { .. }, Event::Saved(Err(m))) => Effect::Reply(Err(EngineError::Save { message: m })),
            (Phase::Presenting { name, has_windows, before }, Event::Performed(Ok(()))) =>
                self.after_presentation(name, has_windows, before, now),
            (Phase::Presenting { .. }, Event::Performed(Err(m))) =>
                Effect::Reply(Err(EngineError::Compositor { message: m })),
            (Phase::Spawning { name, before, expected }, Event::Performed(Ok(()))) =>
                self.after_spawn(name, before, expected, now),
            (Phase::Spawning { .. }, Event::Performed(Err(m))) =>
                Effect::Reply(Err(EngineError::Compositor { message: m })),
            (Phase::StartingAnchor { name }, Event::AnchorStarted) =>
                Effect::Reply(Ok(Outcome::LaunchScheduled { name })),
            (Phase::Sleeping { name, poll }, Event::Slept) => {
                self.phase = Phase::PollWindows { name, poll };
                Effect::QueryWindows
            },
            (Phase::PollWindows { name, poll }, Event::Windows(Ok(wins))) => self.after_poll_windows(name, poll, wins),
            (Phase::PollWindows { .. }, Event::Windows(Err(m))) =>
                Effect::Reply(Err(EngineError::Compositor { message: m })),
            (Phase::Moving { name, poll, latest }, Event::Performed(Ok(()))) => self.after_moves(name, poll, latest, now),
            (Phase::Moving { .. }, Event::Performed(Err(m))) =>
                Effect::Reply(Err(EngineError::Compositor { message: m })),
            (Phase::Focusing { name }, Event::Performed(Ok(()))) =>
                Effect::Reply(Ok(Outcome::LaunchedAndAnchored { name })),
            (Phase::Focusing { .. }, Event::Performed(Err(m))) =>
                Effect::Reply(Err(EngineError::Compositor { message: m })),
            (Phase::HideSaving { name, origin, workspaces, windows }, Event::Saved(Ok(()))) => {
                let (actions, restored) = plan_hiding(&origin, &workspaces, &windows);
                self.phase = Phase::Hiding { name, restored };
                Effect::Perform(actions)
            },
            (Phase::HideSaving { .. }, Event::Saved(Err(m))) => Effect::Reply(Err(EngineError::Save { message: m })),
            (Phase::Hiding { name, restored }, Event::Performed(Ok(()))) => {
                if restored {
                    Effect::Reply(Ok(Outcome::Restored { name }))
                } else {
                    Effect::Reply(Ok(Outcome::PreviousWorkspace { name }))
                }
            },
            (Phase::Hiding { .. }, Event::Performed(Err(m))) =>
                Effect::Reply(Err(EngineError::Compositor { message: m })),
            (Phase::HideAllWorkspaces, Event::Workspaces(Ok(ws))) => match self.hide_all_target(&ws) {
                Some(j) => {
                    assert(self.config.pads()[j as int].0 == self.config.scratchpads.ordered_entries()[j as int].0@);
                    let name = self.config.scratchpads.entries()[j].0.clone();
                    self.phase = Phase::HideAllWindows { name, workspaces: ws };
                    Effect::QueryWindows
                },
                None => Effect::Reply(Ok(Outcome::NoScratchpadFocused)),
            },
            (Phase::HideAllWorkspaces, Event::Workspaces(Err(m))) =>
                Effect::Reply(Err(EngineError::Compositor { message: m })),
            (Phase::HideAllWindows { name, workspaces }, Event::Windows(Ok(wins))) => self.begin_hide(name, workspaces, wins),
            (Phase::HideAllWindows { .. }, Event::Windows(Err(m))) =>
                Effect::Reply(Err(EngineError::Compositor { message: m })),
            (Phase::StatusWorkspaces { only }, Event::Workspaces(Ok(ws))) => {
                self.phase = Phase::StatusWindows { only, workspaces: ws };
                Effect::QueryWindows
            },
            (Phase::StatusWorkspaces { .. }, Event::Workspaces(Err(m))) =>
                Effect::Reply(Err(EngineError::Compositor { message: m })),
            (Phase::StatusWindows { only, workspaces }, Event::Windows(Ok(wins))) =>
                match plan_status(self.config.scratchpads.entries(), &self.state.origins, &only, &workspaces, &wins) {
                    Ok(entries) => Effect::Reply(Ok(Outcome::Status { entries })),
                    Err(error) => Effect::Reply(Err(error)),
                },
            (Phase::StatusWindows { .. }, Event::Windows(Err(m))) =>
                Effect::Reply(Err(EngineError::Compositor { message: m })),
            (Phase::DoctorVersion, Event::Version(Ok(version))) => {
                self.phase = Phase::DoctorWorkspaces { version };
                Effect::QueryWorkspaces
            },
            (Phase::DoctorVersion, Event::Version(Err(m))) =>
                Effect::Reply(Err(EngineError::Compositor { message: m })),
            (Phase::DoctorWorkspaces { version }, Event::Workspaces(Ok(ws))) => {
                let missing = plan_missing_workspaces(self.config.scratchpads.entries(), &ws);
                let healthy = missing.len() == 0;
                Effect::Reply(Ok(Outcome::Diagnosed {
                    report: DoctorReport { niri_version: version, missing_workspaces: missing, healthy },
                }))
            },
            (Phase::DoctorWorkspaces { .. }, Event::Workspaces(Err(m))) =>
                Effect::Reply(Err(EngineError::Compositor { message: m })),
            _ => Effect::Reply(Err(EngineError::UnexpectedEvent)),
        }
    }
}


// ---------------------------------------------------------------------------------------------
// Replies on the control socket.

/// The reply to a control request, without its structured data.
#[derive(Debug)]
pub struct ControlResponse {
    pub version: u8,
    pub ok: bool,
    pub message: String,
}

/// The message that reports an outcome.
pub open spec fn message_of(o: OutcomeView) -> Seq<char> {
    match o {
        OutcomeView::Shown { name } => "shown "@ + name,
        OutcomeView::LaunchPending { name } => "shown "@ + name + "; application launch already pending"@,
        OutcomeView::LaunchScheduled { name } => "shown "@ + name + "; application launch scheduled"@,
        OutcomeView::LaunchedAndAnchored { name } => "shown "@ + name + "; application launched and anchored"@,
        OutcomeView::Launched { name } => "shown "@ + name + "; application launched"@,
        OutcomeView::ShownEmpty { name } => "shown empty scratchpad "@ + name,
        OutcomeView::AlreadyHidden { name } => name + " is already hidden"@,
        OutcomeView::Restored { name } => "hidden "@ + name + "; origin restored"@,
        OutcomeView::PreviousWorkspace { name } => "hidden "@ + name + "; used previous workspace fallback"@,
        OutcomeView::NoScratchpadFocused => "no scratchpad is focused"@,
        OutcomeView::Status { .. } => "status"@,
        OutcomeView::Listed => "configured scratchpads"@,
        OutcomeView::Diagnosed { .. } => "doctor completed"@,
        OutcomeView::Pong => "pong"@,
    }
}

fn framed(prefix: &str, name: &String, suffix: &str) -> (r: String)
    ensures
        r@ == prefix@ + name@ + suffix@,
{
    String::from_str(prefix).concat(name.as_str()).concat(suffix)
}

/// The message that reports `outcome`.
pub fn outcome_message(outcome: &Outcome) -> (r: String)
    ensures
        r@ == message_of(outcome@),
{
    proof {
        reveal_strlit("");
    }
    match outcome {
        Outcome::Shown { name } => {
            let r = framed("shown ", name, "");
            assert(r@ =~= "shown "@ + name@);
            r
        },
        Outcome::LaunchPending { name } => framed("shown ", name, "; application launch already pending"),
        Outcome::LaunchScheduled { name } => framed("shown ", name, "; application launch scheduled"),
        Outcome::LaunchedAndAnchored { name } => framed("shown ", name, "; application launched and anchored"),
        Outcome::Launched { name } => framed("shown ", name, "; application launched"),
        Outcome::ShownEmpty { name } => {
            let r = framed("shown empty scratchpad ", name, "");
            assert(r@ =~= "shown empty scratchpad "@ + name@);
            r
        },
        Outcome::AlreadyHidden { name } => {
            let r = framed("", name, " is already hidden");
            assert(r@ =~= name@ + " is already hidden"@);
            r
        },
        Outcome::Restored { name } => framed("hidden ", name, "; origin restored"),
        Outcome::PreviousWorkspace { name } => framed("hidden ", name, "; used previous workspace fallback"),
        Outcome::NoScratchpadFocused => String::from_str("no scratchpad is focused"),
        Outcome::Status { .. } => String::from_str("status"),
        Outcome::Listed => String::from_str("configured scratchpads"),
        Outcome::Diagnosed { .. } => String::from_str("doctor completed"),
        Outcome::Pong => String::from_str("pong"),
    }
}

impl ControlResponse {
    pub fn ok(message: String) -> (r: ControlResponse)
        ensures
            r.version == crate::model::PROTOCOL_VERSION,
            r.ok,
            r.message@ == message@,
    {
        ControlResponse { version: crate::model::PROTOCOL_VERSION, ok: true, message }
    }

    pub fn error(message: String) -> (r: ControlResponse)
        ensures
            r.version == crate::model::PROTOCOL_VERSION,
            !r.ok,
            r.message@ == message@,
    {
        ControlResponse { version: crate::model::PROTOCOL_VERSION, ok: false, message }
    }

    /// The successful reply that reports `outcome`.
    pub fn for_outcome(outcome: &Outcome) -> (r: ControlResponse)
        ensures
            r.version == crate::model::PROTOCOL_VERSION,
            r.ok,
            r.message@ == message_of(outcome@),
    {
        ControlResponse::ok(outcome_message(outcome))
    }
}

} // verus!
