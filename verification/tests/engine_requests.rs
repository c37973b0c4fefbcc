use niri_scratch::config::{Config, ConfigError, DaemonConfig, PatternField, ScratchpadConfig};
use niri_scratch::engine::{
    outcome_message, ControlResponse, DoctorReport, Effect, Engine, Event, Outcome,
};
use niri_scratch::model::{
    CompositorAction, ControlRequest, NamedMap, PersistedState, ReturnTarget, WindowInfo,
    WorkspaceInfo, PROTOCOL_VERSION,
};
use niri_scratch::planning::{EngineError, MissingWorkspace, StatusEntry};

/// A compositor and a state file that answer from fixed values, with failures on demand.
#[derive(Default)]
struct Fake {
    workspaces: Vec<WorkspaceInfo>,
    windows: Vec<WindowInfo>,
    actions: Vec<CompositorAction>,
    workspace_queries: usize,
    saves: usize,
    sleeps: Vec<u64>,
    anchor_workspaces: Vec<String>,
    fail_workspaces: Option<String>,
    fail_save: Option<String>,
    fail_actions: Option<String>,
}

fn run(engine: &mut Engine, fake: &mut Fake, clock: &mut u64, request: ControlRequest) -> Result<Outcome, EngineError> {
    let mut event = Event::Request(request);
    loop {
        event = match engine.step(event, *clock) {
            Effect::QueryWorkspaces => {
                fake.workspace_queries += 1;
                Event::Workspaces(match &fake.fail_workspaces {
                    Some(message) => Err(message.clone()),
                    None => Ok(fake.workspaces.clone()),
                })
            }
            Effect::QueryWindows => Event::Windows(Ok(fake.windows.clone())),
            Effect::QueryVersion => Event::Version(Ok("26.04".to_string())),
            Effect::SaveState => {
                fake.saves += 1;
                Event::Saved(match &fake.fail_save {
                    Some(message) => Err(message.clone()),
                    None => Ok(()),
                })
            }
            Effect::Perform(actions) => match &fake.fail_actions {
                Some(message) => Event::Performed(Err(message.clone())),
                None => {
                    fake.actions.extend(actions);
                    Event::Performed(Ok(()))
                }
            },
            Effect::Sleep(ms) => {
                fake.sleeps.push(ms);
                *clock += ms;
                Event::Slept
            }
            Effect::StartAnchor(job) => {
                fake.anchor_workspaces.push(job.workspace().clone());
                Event::AnchorStarted
            }
            Effect::Reply(result) => return result,
        };
    }
}

fn workspace(id: u64, name: &str, focused: bool) -> WorkspaceInfo {
    WorkspaceInfo {
        id,
        name: Some(name.into()),
        output: Some("eDP-1".into()),
        is_active: focused,
        is_focused: focused,
        active_window_id: None,
    }
}

fn window(id: u64, app_id: &str, workspace_id: u64) -> WindowInfo {
    WindowInfo { id, title: Some("test".into()), app_id: Some(app_id.into()), workspace_id: Some(workspace_id) }
}

fn pad(workspace: &str, app_id: &str, command: &str) -> ScratchpadConfig {
    ScratchpadConfig {
        workspace: workspace.into(),
        command: vec![command.into()],
        commands: vec![],
        match_app_id: Some(app_id.into()),
        match_title: None,
        launch_if_missing: true,
        adopt_existing: true,
        initial_focus_app_id: None,
        initial_focus_full_width: false,
    }
}

fn config(timeout: u64, background: bool) -> Config {
    let mut scratchpads = NamedMap::new();
    scratchpads.insert("web".to_string(), pad("scratch:web", "^firefox$", "firefox"));
    scratchpads.insert("terminal".to_string(), pad("scratch:terminal", "^scratch-terminal$", "kitty"));
    Config {
        daemon: DaemonConfig { socket: None, state_file: None, launch_timeout_ms: timeout, background_anchor: background },
        scratchpads,
    }
}

/// Changes the scratchpad `name` of `config` in place.
fn edit_pad(config: &mut Config, name: &str, edit: impl FnOnce(&mut ScratchpadConfig)) {
    let mut pad = config.scratchpads.get(name).unwrap().clone();
    edit(&mut pad);
    config.scratchpads.insert(name.to_string(), pad);
}

fn two_workspaces(scratch_focused: bool) -> Vec<WorkspaceInfo> {
    vec![workspace(1, "1", !scratch_focused), workspace(20, "scratch:terminal", scratch_focused)]
}

fn message(result: &Result<Outcome, EngineError>) -> String {
    outcome_message(result.as_ref().unwrap())
}

#[test]
fn ping_and_list_need_no_compositor() {
    let mut engine = Engine::new(config(10, false), PersistedState::new());
    let mut fake = Fake::default();
    let mut clock = 0;
    let pong = run(&mut engine, &mut fake, &mut clock, ControlRequest::Ping);
    assert!(matches!(pong, Ok(Outcome::Pong)));
    assert_eq!(message(&pong), "pong");
    let listed = run(&mut engine, &mut fake, &mut clock, ControlRequest::List);
    assert!(matches!(listed, Ok(Outcome::Listed)));
    assert_eq!(message(&listed), "configured scratchpads");
    assert_eq!(fake.workspace_queries, 0);
}

#[test]
fn unknown_scratchpad_is_refused_before_any_query() {
    let mut engine = Engine::new(config(10, false), PersistedState::new());
    let mut fake = Fake { workspaces: two_workspaces(false), ..Fake::default() };
    let mut clock = 0;
    for request in [
        ControlRequest::Toggle { scratchpad: "nope".into() },
        ControlRequest::Show { scratchpad: "nope".into() },
        ControlRequest::Hide { scratchpad: "nope".into() },
    ] {
        let result = run(&mut engine, &mut fake, &mut clock, request);
        assert!(matches!(result, Err(EngineError::UnknownScratchpad { name }) if name == "nope"));
    }
    assert_eq!(fake.workspace_queries, 0);
    assert!(fake.actions.is_empty());
}

#[test]
fn no_focused_workspace_is_an_error() {
    let mut engine = Engine::new(config(10, false), PersistedState::new());
    let mut fake = Fake { workspaces: vec![workspace(1, "1", false)], ..Fake::default() };
    let mut clock = 0;
    let result = run(&mut engine, &mut fake, &mut clock, ControlRequest::Toggle { scratchpad: "terminal".into() });
    assert!(matches!(result, Err(EngineError::NoFocusedWorkspace)));
    assert!(fake.actions.is_empty());
}

#[test]
fn hide_of_a_hidden_scratchpad_does_nothing() {
    let mut engine = Engine::new(config(10, false), PersistedState::new());
    let mut fake = Fake { workspaces: two_workspaces(false), ..Fake::default() };
    let mut clock = 0;
    let result = run(&mut engine, &mut fake, &mut clock, ControlRequest::Hide { scratchpad: "terminal".into() });
    assert!(matches!(&result, Ok(Outcome::AlreadyHidden { name }) if name == "terminal"));
    assert_eq!(message(&result), "terminal is already hidden");
    assert!(fake.actions.is_empty());
    assert_eq!(fake.saves, 0);
}

#[test]
fn hide_without_origin_falls_back_to_previous_workspace() {
    let mut engine = Engine::new(config(10, false), PersistedState::new());
    let mut fake = Fake { workspaces: two_workspaces(true), ..Fake::default() };
    let mut clock = 0;
    let result = run(&mut engine, &mut fake, &mut clock, ControlRequest::Toggle { scratchpad: "terminal".into() });
    assert_eq!(message(&result), "hidden terminal; used previous workspace fallback");
    assert_eq!(fake.actions, vec![CompositorAction::FocusWorkspacePrevious]);
    assert_eq!(fake.saves, 1);
}

#[test]
fn hide_finds_origin_by_name_and_output_when_its_id_is_gone() {
    let mut engine = Engine::new(config(10, false), PersistedState::new());
    engine.state.origins.insert(
        "terminal".into(),
        ReturnTarget {
            workspace_id: 99,
            workspace_name: Some("1".into()),
            output_name: Some("eDP-1".into()),
            focused_window_id: Some(7),
        },
    );
    let mut fake = Fake {
        workspaces: two_workspaces(true),
        // The window now lives on another workspace, so it is not focused.
        windows: vec![window(7, "editor", 20)],
        ..Fake::default()
    };
    let mut clock = 0;
    let result = run(&mut engine, &mut fake, &mut clock, ControlRequest::Hide { scratchpad: "terminal".into() });
    assert_eq!(message(&result), "hidden terminal; origin restored");
    assert_eq!(fake.actions, vec![CompositorAction::FocusWorkspaceById { id: 1 }]);
    assert!(!engine.state.origins.contains_key("terminal"));
}

#[test]
fn hide_ignores_origin_on_another_output() {
    let mut engine = Engine::new(config(10, false), PersistedState::new());
    engine.state.origins.insert(
        "terminal".into(),
        ReturnTarget {
            workspace_id: 99,
            workspace_name: Some("1".into()),
            output_name: Some("HDMI-A-1".into()),
            focused_window_id: None,
        },
    );
    let mut fake = Fake { workspaces: two_workspaces(true), ..Fake::default() };
    let mut clock = 0;
    let result = run(&mut engine, &mut fake, &mut clock, ControlRequest::Toggle { scratchpad: "terminal".into() });
    assert_eq!(message(&result), "hidden terminal; used previous workspace fallback");
    assert_eq!(fake.actions, vec![CompositorAction::FocusWorkspacePrevious]);
}

#[test]
fn toggle_twice_returns_to_the_exact_origin() {
    let mut engine = Engine::new(config(10, false), PersistedState::new());
    let mut normal = workspace(1, "1", true);
    normal.active_window_id = Some(7);
    let mut fake = Fake {
        workspaces: vec![normal.clone(), workspace(20, "scratch:terminal", false)],
        windows: vec![window(7, "editor", 1), window(9, "scratch-terminal", 20)],
        ..Fake::default()
    };
    let mut clock = 0;
    let shown = run(&mut engine, &mut fake, &mut clock, ControlRequest::Toggle { scratchpad: "terminal".into() });
    assert_eq!(message(&shown), "shown terminal");
    assert_eq!(
        engine.state.origins.get("terminal"),
        Some(&ReturnTarget {
            workspace_id: 1,
            workspace_name: Some("1".into()),
            output_name: Some("eDP-1".into()),
            focused_window_id: Some(7),
        })
    );

    normal.is_focused = false;
    normal.is_active = false;
    fake.workspaces = vec![normal, workspace(20, "scratch:terminal", true)];
    fake.actions.clear();
    let hidden = run(&mut engine, &mut fake, &mut clock, ControlRequest::Toggle { scratchpad: "terminal".into() });
    assert_eq!(message(&hidden), "hidden terminal; origin restored");
    assert_eq!(
        fake.actions,
        vec![CompositorAction::FocusWorkspaceById { id: 1 }, CompositorAction::FocusWindow { id: 7 }]
    );
    assert!(engine.state.origins.get("terminal").is_none());
    assert_eq!(fake.saves, 2);
}

#[test]
fn showing_from_a_scratchpad_keeps_the_normal_origin() {
    let mut engine = Engine::new(config(10, false), PersistedState::new());
    let origin = ReturnTarget {
        workspace_id: 1,
        workspace_name: Some("1".into()),
        output_name: Some("eDP-1".into()),
        focused_window_id: Some(7),
    };
    engine.state.origins.insert("terminal".into(), origin.clone());
    let mut fake = Fake {
        workspaces: vec![
            workspace(1, "1", false),
            workspace(20, "scratch:terminal", true),
            workspace(30, "scratch:web", false),
        ],
        windows: vec![window(5, "firefox", 30)],
        ..Fake::default()
    };
    let mut clock = 0;
    let result = run(&mut engine, &mut fake, &mut clock, ControlRequest::Show { scratchpad: "web".into() });
    assert_eq!(message(&result), "shown web");
    assert_eq!(engine.state.origins.get("web"), Some(&origin));
    assert_eq!(engine.state.origins.get("terminal"), Some(&origin));
}

#[test]
fn a_return_target_is_never_the_scratchpad_itself() {
    let mut engine = Engine::new(config(10, false), PersistedState::new());
    let mut clock = 0;
    // Show terminal while web's workspace is focused and web has no return target.
    let mut fake = Fake {
        workspaces: vec![workspace(20, "scratch:terminal", false), workspace(30, "scratch:web", true)],
        windows: vec![window(9, "scratch-terminal", 20), window(5, "firefox", 30)],
        ..Fake::default()
    };
    run(&mut engine, &mut fake, &mut clock, ControlRequest::Show { scratchpad: "terminal".into() }).unwrap();
    assert_eq!(engine.state.origins.get("terminal").unwrap().workspace_name, Some("scratch:web".to_string()));
    // Now show web from terminal's workspace: web keeps the workspace it was opened from.
    fake.workspaces = vec![workspace(20, "scratch:terminal", true), workspace(30, "scratch:web", false)];
    run(&mut engine, &mut fake, &mut clock, ControlRequest::Show { scratchpad: "web".into() }).unwrap();
    let web = engine.state.origins.get("web").unwrap();
    assert_eq!(web.workspace_id, 20);
    assert_eq!(web.workspace_name, Some("scratch:terminal".to_string()));
}

#[test]
fn showing_a_visible_scratchpad_again_keeps_its_origin() {
    let mut engine = Engine::new(config(10, false), PersistedState::new());
    let origin = ReturnTarget { workspace_id: 1, workspace_name: None, output_name: None, focused_window_id: None };
    engine.state.origins.insert("terminal".into(), origin.clone());
    let mut fake = Fake {
        workspaces: two_workspaces(true),
        windows: vec![window(9, "scratch-terminal", 20)],
        ..Fake::default()
    };
    let mut clock = 0;
    let result = run(&mut engine, &mut fake, &mut clock, ControlRequest::Show { scratchpad: "terminal".into() });
    assert_eq!(message(&result), "shown terminal");
    assert_eq!(engine.state.origins.get("terminal"), Some(&origin));
    assert_eq!(fake.saves, 0);
}

#[test]
fn launch_without_timeout_reports_launched() {
    let mut engine = Engine::new(config(0, false), PersistedState::new());
    let mut fake = Fake { workspaces: two_workspaces(false), ..Fake::default() };
    let mut clock = 0;
    let result = run(&mut engine, &mut fake, &mut clock, ControlRequest::Toggle { scratchpad: "terminal".into() });
    assert!(matches!(&result, Ok(Outcome::Launched { name }) if name == "terminal"));
    assert_eq!(message(&result), "shown terminal; application launched");
    assert_eq!(
        fake.actions,
        vec![
            CompositorAction::FocusWorkspaceByName { workspace: "scratch:terminal".into() },
            CompositorAction::Spawn { command: vec!["kitty".into()] },
        ]
    );
    assert!(fake.sleeps.is_empty());
    assert_eq!(fake.saves, 1);
    assert!(engine.state.origins.contains_key("terminal"));
}

#[test]
fn background_anchoring_is_scheduled_when_enabled() {
    let mut engine = Engine::new(config(500, true), PersistedState::new());
    let mut fake = Fake { workspaces: two_workspaces(false), ..Fake::default() };
    let mut clock = 0;
    let result = run(&mut engine, &mut fake, &mut clock, ControlRequest::Show { scratchpad: "terminal".into() });
    assert_eq!(message(&result), "shown terminal; application launch scheduled");
    assert_eq!(fake.anchor_workspaces, vec!["scratch:terminal".to_string()]);
    assert!(fake.sleeps.is_empty());

    // Without a timeout the launch is reported at once, in the foreground.
    let mut engine = Engine::new(config(0, true), PersistedState::new());
    let mut fake = Fake { workspaces: two_workspaces(false), ..Fake::default() };
    let result = run(&mut engine, &mut fake, &mut clock, ControlRequest::Show { scratchpad: "terminal".into() });
    assert_eq!(message(&result), "shown terminal; application launched");
    assert!(fake.anchor_workspaces.is_empty());
}

#[test]
fn foreground_launch_polls_until_the_timeout() {
    let mut engine = Engine::new(config(120, false), PersistedState::new());
    let mut fake = Fake { workspaces: two_workspaces(false), ..Fake::default() };
    let mut clock = 1000;
    let result = run(&mut engine, &mut fake, &mut clock, ControlRequest::Show { scratchpad: "terminal".into() });
    assert_eq!(message(&result), "shown terminal; application launched");
    assert_eq!(fake.sleeps, vec![50, 50, 50]);
}

#[test]
fn pending_launch_expires_at_its_deadline() {
    let mut engine = Engine::new(config(0, true), PersistedState::new());
    let mut fake = Fake { workspaces: two_workspaces(false), ..Fake::default() };
    let mut clock = 100;
    engine.mark_launch_pending("terminal".into(), 200);
    let pending = run(&mut engine, &mut fake, &mut clock, ControlRequest::Show { scratchpad: "terminal".into() });
    assert_eq!(message(&pending), "shown terminal; application launch already pending");
    clock = 200;
    let launched = run(&mut engine, &mut fake, &mut clock, ControlRequest::Show { scratchpad: "terminal".into() });
    assert_eq!(message(&launched), "shown terminal; application launched");
    let spawns = fake.actions.iter().filter(|a| matches!(a, CompositorAction::Spawn { .. })).count();
    assert_eq!(spawns, 1);
}

#[test]
fn every_configured_command_is_launched_in_order() {
    let mut config = config(0, false);
    edit_pad(&mut config, "terminal", |pad| {
        pad.commands = vec![vec!["telegram".into()], vec!["throne".into(), "--tray".into()]];
    });
    let mut engine = Engine::new(config, PersistedState::new());
    let mut fake = Fake { workspaces: two_workspaces(false), ..Fake::default() };
    let mut clock = 0;
    run(&mut engine, &mut fake, &mut clock, ControlRequest::Show { scratchpad: "terminal".into() }).unwrap();
    assert_eq!(
        fake.actions[1..],
        [
            CompositorAction::Spawn { command: vec!["telegram".into()] },
            CompositorAction::Spawn { command: vec!["throne".into(), "--tray".into()] },
        ]
    );
}

#[test]
fn empty_scratchpad_without_launching_is_just_shown() {
    let mut config = config(10, false);
    edit_pad(&mut config, "terminal", |pad| pad.launch_if_missing = false);
    let mut engine = Engine::new(config, PersistedState::new());
    let mut fake = Fake { workspaces: two_workspaces(false), ..Fake::default() };
    let mut clock = 0;
    let result = run(&mut engine, &mut fake, &mut clock, ControlRequest::Show { scratchpad: "terminal".into() });
    assert_eq!(message(&result), "shown empty scratchpad terminal");
    assert_eq!(fake.actions, vec![CompositorAction::FocusWorkspaceByName { workspace: "scratch:terminal".into() }]);
}

#[test]
fn failures_of_the_outside_world_are_reported() {
    let mut clock = 0;

    let mut engine = Engine::new(config(10, false), PersistedState::new());
    let mut fake = Fake { fail_workspaces: Some("cannot connect to NIRI_SOCKET".into()), ..Fake::default() };
    let result = run(&mut engine, &mut fake, &mut clock, ControlRequest::Toggle { scratchpad: "terminal".into() });
    assert!(matches!(result, Err(EngineError::Compositor { message }) if message == "cannot connect to NIRI_SOCKET"));

    let mut fake = Fake { workspaces: two_workspaces(false), fail_save: Some("disk full".into()), ..Fake::default() };
    let result = run(&mut engine, &mut fake, &mut clock, ControlRequest::Toggle { scratchpad: "terminal".into() });
    assert!(matches!(result, Err(EngineError::Save { message }) if message == "disk full"));
    assert!(fake.actions.is_empty());

    let mut fake = Fake { workspaces: two_workspaces(false), fail_actions: Some("Niri rejected request: no".into()), ..Fake::default() };
    let result = run(&mut engine, &mut fake, &mut clock, ControlRequest::Toggle { scratchpad: "terminal".into() });
    assert!(matches!(result, Err(EngineError::Compositor { message }) if message == "Niri rejected request: no"));

    // After every failure the engine takes requests again.
    let mut fake = Fake::default();
    assert!(matches!(run(&mut engine, &mut fake, &mut clock, ControlRequest::Ping), Ok(Outcome::Pong)));
}

#[test]
fn an_event_nobody_waits_for_is_refused() {
    let mut engine = Engine::new(config(10, false), PersistedState::new());
    assert!(matches!(engine.step(Event::Slept, 0), Effect::Reply(Err(EngineError::UnexpectedEvent))));
    assert!(matches!(engine.step(Event::Request(ControlRequest::Ping), 0), Effect::Reply(Ok(Outcome::Pong))));
}

#[test]
fn broken_pattern_fails_the_show() {
    let mut config = config(10, false);
    edit_pad(&mut config, "terminal", |pad| pad.match_title = Some("(".into()));
    let mut engine = Engine::new(config, PersistedState::new());
    let mut fake = Fake { workspaces: two_workspaces(false), ..Fake::default() };
    let mut clock = 0;
    let result = run(&mut engine, &mut fake, &mut clock, ControlRequest::Show { scratchpad: "terminal".into() });
    assert!(matches!(
        result,
        Err(EngineError::InvalidPattern { name, field: PatternField::Title, .. }) if name == "terminal"
    ));
    assert!(fake.actions.is_empty());
}

#[test]
fn hide_all_hides_the_focused_scratchpad_only() {
    let mut engine = Engine::new(config(10, false), PersistedState::new());
    let mut fake = Fake { workspaces: two_workspaces(false), ..Fake::default() };
    let mut clock = 0;
    let none = run(&mut engine, &mut fake, &mut clock, ControlRequest::HideAll);
    assert!(matches!(none, Ok(Outcome::NoScratchpadFocused)));
    assert_eq!(message(&none), "no scratchpad is focused");
    assert!(fake.actions.is_empty());

    fake.workspaces = two_workspaces(true);
    let hidden = run(&mut engine, &mut fake, &mut clock, ControlRequest::HideAll);
    assert_eq!(message(&hidden), "hidden terminal; used previous workspace fallback");
    assert_eq!(fake.actions, vec![CompositorAction::FocusWorkspacePrevious]);
}

#[test]
fn status_reports_every_scratchpad_in_order() {
    let mut engine = Engine::new(config(10, false), PersistedState::new());
    let origin = ReturnTarget { workspace_id: 1, workspace_name: Some("1".into()), output_name: None, focused_window_id: None };
    engine.state.origins.insert("terminal".into(), origin.clone());
    let mut scratch = workspace(20, "scratch:terminal", true);
    scratch.is_active = true;
    let mut fake = Fake {
        workspaces: vec![workspace(1, "1", false), scratch],
        windows: vec![window(9, "scratch-terminal", 20), window(4, "firefox", 1), window(3, "scratch-terminal", 1)],
        ..Fake::default()
    };
    let mut clock = 0;
    let result = run(&mut engine, &mut fake, &mut clock, ControlRequest::Status { scratchpad: None });
    assert_eq!(message(&result), "status");
    let entries = match result {
        Ok(Outcome::Status { entries }) => entries,
        other => panic!("unexpected {other:?}"),
    };
    assert_eq!(entries.len(), 2);
    let StatusEntry { name, workspace, visible, active, window_ids, origin: seen } = &entries[0];
    assert_eq!((name.as_str(), workspace.as_str(), *visible, *active), ("terminal", "scratch:terminal", true, true));
    assert_eq!(window_ids, &vec![9, 3]);
    assert_eq!(seen, &Some(origin));
    let web = &entries[1];
    assert_eq!((web.name.as_str(), web.visible, web.active), ("web", false, false));
    assert_eq!(web.window_ids, vec![4]);
    assert_eq!(web.origin, None);

    let only = run(&mut engine, &mut fake, &mut clock, ControlRequest::Status { scratchpad: Some("web".into()) });
    assert!(matches!(only, Ok(Outcome::Status { entries }) if entries.len() == 1 && entries[0].name == "web"));

    let unknown = run(&mut engine, &mut fake, &mut clock, ControlRequest::Status { scratchpad: Some("nope".into()) });
    assert!(matches!(unknown, Err(EngineError::UnknownScratchpad { name }) if name == "nope"));
}

#[test]
fn status_names_the_first_scratchpad_with_a_broken_pattern() {
    let mut config = config(10, false);
    edit_pad(&mut config, "web", |pad| pad.match_app_id = Some("[".into()));
    edit_pad(&mut config, "terminal", |pad| pad.match_title = Some("(".into()));
    let mut engine = Engine::new(config, PersistedState::new());
    let mut fake = Fake { workspaces: two_workspaces(false), ..Fake::default() };
    let mut clock = 0;
    let all = run(&mut engine, &mut fake, &mut clock, ControlRequest::Status { scratchpad: None });
    assert!(matches!(
        all,
        Err(EngineError::InvalidPattern { name, field: PatternField::Title, .. }) if name == "terminal"
    ));
    let web = run(&mut engine, &mut fake, &mut clock, ControlRequest::Status { scratchpad: Some("web".into()) });
    assert!(matches!(
        web,
        Err(EngineError::InvalidPattern { name, field: PatternField::AppId, .. }) if name == "web"
    ));
}

#[test]
fn doctor_lists_missing_workspaces() {
    let mut engine = Engine::new(config(10, false), PersistedState::new());
    let mut fake = Fake { workspaces: two_workspaces(false), ..Fake::default() };
    let mut clock = 0;
    let result = run(&mut engine, &mut fake, &mut clock, ControlRequest::Doctor);
    assert_eq!(message(&result), "doctor completed");
    match result {
        Ok(Outcome::Diagnosed { report: DoctorReport { niri_version, missing_workspaces, healthy } }) => {
            assert_eq!(niri_version, "26.04");
            assert!(!healthy);
            assert_eq!(missing_workspaces.len(), 1);
            let MissingWorkspace { scratchpad, workspace } = &missing_workspaces[0];
            assert_eq!((scratchpad.as_str(), workspace.as_str()), ("web", "scratch:web"));
        }
        other => panic!("unexpected {other:?}"),
    }

    fake.workspaces.push(workspace(30, "scratch:web", false));
    let healthy = run(&mut engine, &mut fake, &mut clock, ControlRequest::Doctor);
    assert!(matches!(healthy, Ok(Outcome::Diagnosed { report }) if report.healthy && report.missing_workspaces.is_empty()));
}

#[test]
fn doctor_checks_the_configuration_first() {
    let mut engine = Engine::new(Config::default(), PersistedState::new());
    let mut fake = Fake::default();
    let mut clock = 0;
    let result = run(&mut engine, &mut fake, &mut clock, ControlRequest::Doctor);
    assert!(matches!(result, Err(EngineError::InvalidConfig { error: ConfigError::NoScratchpads })));
    assert_eq!(fake.workspace_queries, 0);
}

#[test]
fn every_outcome_has_its_message() {
    let name = || "chat".to_string();
    let cases = [
        (Outcome::Shown { name: name() }, "shown chat"),
        (Outcome::LaunchPending { name: name() }, "shown chat; application launch already pending"),
        (Outcome::LaunchScheduled { name: name() }, "shown chat; application launch scheduled"),
        (Outcome::LaunchedAndAnchored { name: name() }, "shown chat; application launched and anchored"),
        (Outcome::Launched { name: name() }, "shown chat; application launched"),
        (Outcome::ShownEmpty { name: name() }, "shown empty scratchpad chat"),
        (Outcome::AlreadyHidden { name: name() }, "chat is already hidden"),
        (Outcome::Restored { name: name() }, "hidden chat; origin restored"),
        (Outcome::PreviousWorkspace { name: name() }, "hidden chat; used previous workspace fallback"),
        (Outcome::NoScratchpadFocused, "no scratchpad is focused"),
        (Outcome::Status { entries: vec![] }, "status"),
        (Outcome::Listed, "configured scratchpads"),
        (
            Outcome::Diagnosed {
                report: DoctorReport { niri_version: "x".into(), missing_workspaces: vec![], healthy: true },
            },
            "doctor completed",
        ),
        (Outcome::Pong, "pong"),
    ];
    for (outcome, expected) in cases {
        let response = ControlResponse::for_outcome(&outcome);
        assert_eq!(response.message, expected);
        assert!(response.ok);
        assert_eq!(response.version, PROTOCOL_VERSION);
    }
    let error = ControlResponse::error("bad".into());
    assert!(!error.ok);
    assert_eq!(error.message, "bad");
    assert_eq!(error.version, 1);
}

#[test]
fn double_tap_launches_once() {
    let mut engine = Engine::new(config(500, true), PersistedState::new());
    let mut fake = Fake { workspaces: two_workspaces(false), ..Fake::default() };
    let mut clock = 1000;
    let first = run(&mut engine, &mut fake, &mut clock, ControlRequest::Show { scratchpad: "terminal".into() });
    assert_eq!(message(&first), "shown terminal; application launch scheduled");
    fake.actions.clear();
    clock += 100;
    let second = run(&mut engine, &mut fake, &mut clock, ControlRequest::Show { scratchpad: "terminal".into() });
    assert_eq!(message(&second), "shown terminal; application launch already pending");
    assert_eq!(fake.actions, vec![CompositorAction::FocusWorkspaceByName { workspace: "scratch:terminal".into() }]);
    assert_eq!(fake.anchor_workspaces.len(), 1);
}

#[test]
fn hide_all_acts_as_hide_of_the_focused_scratchpad() {
    let origin = ReturnTarget {
        workspace_id: 1,
        workspace_name: Some("1".into()),
        output_name: Some("eDP-1".into()),
        focused_window_id: Some(7),
    };
    let mut results = Vec::new();
    for request in [ControlRequest::HideAll, ControlRequest::Hide { scratchpad: "terminal".into() }] {
        let mut engine = Engine::new(config(10, false), PersistedState::new());
        engine.state.origins.insert("terminal".into(), origin.clone());
        let mut fake = Fake {
            workspaces: two_workspaces(true),
            windows: vec![window(7, "editor", 1)],
            ..Fake::default()
        };
        let mut clock = 0;
        let result = run(&mut engine, &mut fake, &mut clock, request);
        results.push((message(&result), fake.actions, fake.saves, engine.state.origins.contains_key("terminal")));
    }
    assert_eq!(results[0], results[1]);
    assert_eq!(results[0].0, "hidden terminal; origin restored");
}
