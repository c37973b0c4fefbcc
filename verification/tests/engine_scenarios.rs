use niri_scratch::config::{Config, DaemonConfig, ScratchpadConfig};
use niri_scratch::engine::{ControlResponse, Effect, Engine, Event, Outcome};
use niri_scratch::model::{
    CompositorAction, ControlRequest, NamedMap, PersistedState, ReturnTarget, WindowInfo,
    WorkspaceInfo,
};
use niri_scratch::planning::EngineError;

/// A compositor that answers from fixed snapshots and records the actions it is asked for.
struct FakeCompositor {
    workspaces: Vec<WorkspaceInfo>,
    windows: Vec<WindowInfo>,
    /// When set, the first windows query sees no window and later ones see these.
    later_windows: Option<Vec<WindowInfo>>,
    window_calls: usize,
    actions: Vec<CompositorAction>,
}

impl FakeCompositor {
    fn new(workspaces: Vec<WorkspaceInfo>, windows: Vec<WindowInfo>) -> Self {
        FakeCompositor { workspaces, windows, later_windows: None, window_calls: 0, actions: vec![] }
    }

    fn windows(&mut self) -> Vec<WindowInfo> {
        self.window_calls += 1;
        match &self.later_windows {
            Some(later) if self.window_calls > 1 => later.clone(),
            Some(_) => vec![],
            None => self.windows.clone(),
        }
    }
}

/// Runs one request to its reply, answering the engine's needs from the fake compositor and a
/// simulated clock.
fn handle(
    engine: &mut Engine,
    compositor: &mut FakeCompositor,
    clock: &mut u64,
    request: ControlRequest,
) -> Result<Outcome, EngineError> {
    let mut event = Event::Request(request);
    loop {
        event = match engine.step(event, *clock) {
            Effect::QueryWorkspaces => Event::Workspaces(Ok(compositor.workspaces.clone())),
            Effect::QueryWindows => Event::Windows(Ok(compositor.windows())),
            Effect::QueryVersion => Event::Version(Ok("26.04".to_string())),
            Effect::SaveState => Event::Saved(Ok(())),
            Effect::Perform(actions) => {
                compositor.actions.extend(actions);
                Event::Performed(Ok(()))
            }
            Effect::Sleep(ms) => {
                *clock += ms;
                Event::Slept
            }
            Effect::StartAnchor(_) => Event::AnchorStarted,
            Effect::Reply(result) => return result,
        };
    }
}

fn workspace(id: u64, name: &str, focused: bool) -> WorkspaceInfo {
    WorkspaceInfo {
        id,
        name: Some(name.into()),
        output: Some("eDP-1".into()),
        is_active: focused,
        is_focused: focused,
        active_window_id: None,
    }
}

fn window(id: u64, app_id: &str, workspace_id: u64) -> WindowInfo {
    WindowInfo {
        id,
        title: Some("test".into()),
        app_id: Some(app_id.into()),
        workspace_id: Some(workspace_id),
    }
}

fn terminal_pad() -> ScratchpadConfig {
    ScratchpadConfig {
        workspace: "scratch:terminal".into(),
        command: vec!["kitty".into()],
        commands: vec![],
        match_app_id: Some("^scratch-terminal$".into()),
        match_title: None,
        launch_if_missing: true,
        adopt_existing: true,
        initial_focus_app_id: None,
        initial_focus_full_width: false,
    }
}

fn test_config(state_path: &str) -> Config {
    let mut scratchpads = NamedMap::new();
    scratchpads.insert("terminal".to_string(), terminal_pad());
    Config {
        daemon: DaemonConfig {
            socket: None,
            state_file: Some(state_path.into()),
            launch_timeout_ms: 10,
            background_anchor: false,
        },
        scratchpads,
    }
}

/// Changes the scratchpad `name` of `config` in place.
fn edit_pad(config: &mut Config, name: &str, edit: impl FnOnce(&mut ScratchpadConfig)) {
    let mut pad = config.scratchpads.get(name).unwrap().clone();
    edit(&mut pad);
    config.scratchpads.insert(name.to_string(), pad);
}

fn message(outcome: &Outcome) -> String {
    ControlResponse::for_outcome(outcome).message
}

#[test]
fn config_rejects_normal_workspace_collision() {
    let mut config = test_config("/tmp/test-state");
    edit_pad(&mut config, "terminal", |pad| pad.workspace = "3".into());
    assert!(config.validate().is_err());
}

#[test]
fn config_accepts_empty_scratchpad_when_launch_is_disabled() {
    let mut config = test_config("/tmp/test-state");
    edit_pad(&mut config, "terminal", |pad| {
        pad.command.clear();
        pad.match_app_id = None;
        pad.launch_if_missing = false;
    });
    assert!(config.validate().is_ok());
}

#[test]
fn newly_spawned_windows_are_anchored_after_fast_workspace_switch() {
    let mut compositor = FakeCompositor::new(
        vec![
            workspace(1, "1", true),
            workspace(2, "2", false),
            workspace(20, "scratch:terminal", false),
        ],
        vec![],
    );
    // The windows map on the workspace selected by a very fast user switch.
    compositor.later_windows = Some(vec![
        window(42, "org.telegram.desktop", 2),
        window(43, "Throne", 2),
    ]);
    let mut config = test_config("state.json");
    config.daemon.launch_timeout_ms = 200;
    edit_pad(&mut config, "terminal", |pad| {
        pad.adopt_existing = false;
        pad.command.clear();
        pad.commands = vec![vec!["Telegram".into()], vec!["throne".into()]];
        pad.match_app_id = Some("^(org\\.telegram\\.desktop|Throne)$".into());
        pad.initial_focus_app_id = Some("^org\\.telegram\\.desktop$".into());
        pad.initial_focus_full_width = true;
    });
    let mut engine = Engine::new(config, PersistedState::new());
    let mut clock = 0;

    let outcome = handle(
        &mut engine,
        &mut compositor,
        &mut clock,
        ControlRequest::Show { scratchpad: "terminal".into() },
    )
    .unwrap();

    assert!(message(&outcome).contains("launched and anchored"));
    assert!(compositor.actions.iter().any(|action| matches!(
        action,
        CompositorAction::MoveWindowToWorkspace { window_id: 42, workspace } if workspace == "scratch:terminal"
    )));
    assert!(compositor.actions.iter().any(|action| matches!(
        action,
        CompositorAction::MoveWindowToWorkspace { window_id: 43, workspace } if workspace == "scratch:terminal"
    )));
    let focus_position = compositor
        .actions
        .iter()
        .position(|action| matches!(action, CompositorAction::FocusWindow { id: 42 }))
        .unwrap();
    assert!(matches!(compositor.actions[focus_position + 1], CompositorAction::MoveColumnToFirst));
    assert!(matches!(compositor.actions[focus_position + 2], CompositorAction::FillColumnWidth));
}

#[test]
fn show_remembers_origin_without_overriding_last_scratch_focus() {
    let mut compositor = FakeCompositor::new(
        vec![workspace(1, "1", true), workspace(20, "scratch:terminal", false)],
        vec![window(9, "scratch-terminal", 20)],
    );
    let mut engine = Engine::new(test_config("state.json"), PersistedState::new());
    let mut clock = 0;
    let outcome = handle(
        &mut engine,
        &mut compositor,
        &mut clock,
        ControlRequest::Toggle { scratchpad: "terminal".into() },
    );
    assert!(outcome.is_ok());
    assert!(ControlResponse::for_outcome(outcome.as_ref().unwrap()).ok);
    assert_eq!(engine.state.origins.get("terminal").unwrap().workspace_id, 1);
    assert!(matches!(compositor.actions[0], CompositorAction::FocusWorkspaceByName { .. }));
    assert_eq!(compositor.actions.len(), 1);
}

#[test]
fn show_restores_workspace_active_window_instead_of_first_match() {
    let mut scratch = workspace(20, "scratch:terminal", false);
    scratch.active_window_id = Some(10);
    let mut compositor = FakeCompositor::new(
        vec![workspace(1, "1", true), scratch],
        vec![window(9, "scratch-terminal", 20), window(10, "scratch-terminal", 20)],
    );
    let mut engine = Engine::new(test_config("state.json"), PersistedState::new());
    let mut clock = 0;
    handle(
        &mut engine,
        &mut compositor,
        &mut clock,
        ControlRequest::Show { scratchpad: "terminal".into() },
    )
    .unwrap();
    assert!(matches!(
        compositor.actions.as_slice(),
        [CompositorAction::FocusWorkspaceByName { .. }, CompositorAction::FocusWindow { id: 10 }]
    ));
}

#[test]
fn pending_launch_suppresses_duplicate_spawn_during_rapid_toggle() {
    let mut compositor = FakeCompositor::new(
        vec![workspace(1, "1", true), workspace(20, "scratch:terminal", false)],
        vec![],
    );
    let mut engine = Engine::new(test_config("state.json"), PersistedState::new());
    let mut clock = 0;
    engine.mark_launch_pending("terminal".into(), clock + 1000);
    let outcome = handle(
        &mut engine,
        &mut compositor,
        &mut clock,
        ControlRequest::Show { scratchpad: "terminal".into() },
    )
    .unwrap();
    assert!(message(&outcome).contains("already pending"));
    assert!(matches!(compositor.actions.as_slice(), [CompositorAction::FocusWorkspaceByName { .. }]));
}

#[test]
fn hide_restores_exact_origin_then_window() {
    let mut normal = workspace(1, "1", false);
    normal.active_window_id = Some(7);
    let mut compositor = FakeCompositor::new(
        vec![normal, workspace(20, "scratch:terminal", true)],
        vec![window(7, "editor", 1)],
    );
    let mut engine = Engine::new(test_config("state.json"), PersistedState::new());
    engine.state.origins.insert(
        "terminal".into(),
        ReturnTarget {
            workspace_id: 1,
            workspace_name: Some("1".into()),
            output_name: Some("eDP-1".into()),
            focused_window_id: Some(7),
        },
    );
    let mut clock = 0;
    let outcome = handle(
        &mut engine,
        &mut compositor,
        &mut clock,
        ControlRequest::Toggle { scratchpad: "terminal".into() },
    );
    assert!(outcome.is_ok());
    assert!(matches!(compositor.actions[0], CompositorAction::FocusWorkspaceById { id: 1 }));
    assert!(matches!(compositor.actions[1], CompositorAction::FocusWindow { id: 7 }));
}

#[test]
fn show_adopts_window_from_wrong_workspace() {
    let mut compositor = FakeCompositor::new(
        vec![workspace(1, "1", true), workspace(20, "scratch:terminal", false)],
        vec![window(9, "scratch-terminal", 1)],
    );
    let mut engine = Engine::new(test_config("state.json"), PersistedState::new());
    let mut clock = 0;
    handle(
        &mut engine,
        &mut compositor,
        &mut clock,
        ControlRequest::Show { scratchpad: "terminal".into() },
    )
    .unwrap();
    assert!(matches!(
        compositor.actions[0],
        CompositorAction::MoveWindowToWorkspace { window_id: 9, .. }
    ));
}

#[test]
fn non_adopting_pad_ignores_matching_window_on_normal_workspace() {
    let mut compositor = FakeCompositor::new(
        vec![workspace(1, "1", true), workspace(20, "scratch:terminal", false)],
        vec![window(9, "scratch-terminal", 1)],
    );
    let mut config = test_config("state.json");
    edit_pad(&mut config, "terminal", |pad| pad.adopt_existing = false);
    let mut engine = Engine::new(config, PersistedState::new());
    let mut clock = 0;
    handle(
        &mut engine,
        &mut compositor,
        &mut clock,
        ControlRequest::Show { scratchpad: "terminal".into() },
    )
    .unwrap();
    assert!(matches!(
        compositor.actions.as_slice(),
        [CompositorAction::FocusWorkspaceByName { .. }, CompositorAction::Spawn { .. }]
    ));
}
