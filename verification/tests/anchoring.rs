use niri_scratch::config::{PatternField, ScratchpadConfig};
use niri_scratch::engine::{AnchorEffect, AnchorEvent, AnchorJob, ANCHOR_POLL_INTERVAL_MS};
use niri_scratch::model::{CompositorAction, WindowInfo, WorkspaceInfo};
use niri_scratch::planning::{plan_anchor_round, plan_initial_focus, plan_spawns, EngineError};

fn chat_pad() -> ScratchpadConfig {
    ScratchpadConfig {
        workspace: "scratch:chat".into(),
        command: vec![],
        commands: vec![vec!["Telegram".into()], vec!["throne".into()]],
        match_app_id: Some("^(org\\.telegram\\.desktop|Throne)$".into()),
        match_title: None,
        launch_if_missing: true,
        adopt_existing: false,
        initial_focus_app_id: Some("^org\\.telegram\\.desktop$".into()),
        initial_focus_full_width: true,
    }
}

fn window(id: u64, app_id: &str, workspace_id: u64) -> WindowInfo {
    WindowInfo { id, title: None, app_id: Some(app_id.into()), workspace_id: Some(workspace_id) }
}

fn workspaces(chat_focused: bool) -> Vec<WorkspaceInfo> {
    vec![
        WorkspaceInfo {
            id: 2,
            name: Some("2".into()),
            output: None,
            is_active: !chat_focused,
            is_focused: !chat_focused,
            active_window_id: None,
        },
        WorkspaceInfo {
            id: 30,
            name: Some("scratch:chat".into()),
            output: None,
            is_active: chat_focused,
            is_focused: chat_focused,
            active_window_id: None,
        },
    ]
}

fn moved(id: u64) -> CompositorAction {
    CompositorAction::MoveWindowToWorkspace { window_id: id, workspace: "scratch:chat".into() }
}

/// Drives a job to its end; the windows query answers `rounds[k]` the `k`-th time (the last
/// entry thereafter) and each answer advances the clock by the pause the job asked for.
fn drive(job: &mut AnchorJob, rounds: &[Vec<WindowInfo>], ws: &[WorkspaceInfo]) -> (Vec<CompositorAction>, Result<(), EngineError>) {
    let mut actions = Vec::new();
    let mut now = 0u64;
    let mut looks = 0usize;
    let mut event = AnchorEvent::Start;
    loop {
        event = match job.step(event, now) {
            AnchorEffect::Sleep(ms) => {
                now += ms;
                AnchorEvent::Slept
            }
            AnchorEffect::QueryWindows => {
                let answer = rounds[looks.min(rounds.len() - 1)].clone();
                looks += 1;
                AnchorEvent::Windows(Ok(answer))
            }
            AnchorEffect::QueryWorkspaces => AnchorEvent::Workspaces(Ok(ws.to_vec())),
            AnchorEffect::Perform(batch) => {
                actions.extend(batch);
                AnchorEvent::Performed(Ok(()))
            }
            AnchorEffect::Finish(result) => return (actions, result),
        };
    }
}

#[test]
fn job_anchors_new_windows_then_focuses_while_visible() {
    let mut job = AnchorJob::new("chat".to_string(), chat_pad(), vec![7], 2, 1000);
    assert_eq!(job.workspace(), "scratch:chat");
    let rounds = vec![
        vec![window(7, "Throne", 2)],
        vec![window(7, "Throne", 2), window(42, "org.telegram.desktop", 2)],
        vec![window(7, "Throne", 2), window(42, "org.telegram.desktop", 30), window(43, "Throne", 2)],
    ];
    let (actions, result) = drive(&mut job, &rounds, &workspaces(true));
    assert!(result.is_ok());
    assert_eq!(
        actions,
        vec![
            moved(42),
            moved(43),
            CompositorAction::FocusWindow { id: 42 },
            CompositorAction::MoveColumnToFirst,
            CompositorAction::FillColumnWidth,
        ]
    );
}

#[test]
fn job_never_teleports_a_user_who_left() {
    let mut job = AnchorJob::new("chat".to_string(), chat_pad(), vec![], 2, 1000);
    let rounds = vec![vec![window(42, "org.telegram.desktop", 2), window(43, "Throne", 2)]];
    let (actions, result) = drive(&mut job, &rounds, &workspaces(false));
    assert!(result.is_ok());
    assert_eq!(actions, vec![moved(42), moved(43)]);
}

#[test]
fn job_gives_up_quietly_at_its_deadline() {
    let mut job = AnchorJob::new("chat".to_string(), chat_pad(), vec![], 2, 60);
    let rounds = vec![vec![window(42, "org.telegram.desktop", 2)]];
    let (actions, result) = drive(&mut job, &rounds, &workspaces(true));
    assert!(result.is_ok());
    assert_eq!(actions, vec![moved(42)]);
}

#[test]
fn job_starts_with_a_pause() {
    let mut job = AnchorJob::new("chat".to_string(), chat_pad(), vec![], 1, 100);
    assert!(matches!(job.step(AnchorEvent::Start, 5), AnchorEffect::Sleep(ANCHOR_POLL_INTERVAL_MS)));
    assert!(matches!(job.step(AnchorEvent::Slept, 30), AnchorEffect::QueryWindows));
}

#[test]
fn job_stops_at_the_first_failure() {
    let mut job = AnchorJob::new("chat".to_string(), chat_pad(), vec![], 1, 100);
    job.step(AnchorEvent::Start, 0);
    job.step(AnchorEvent::Slept, 25);
    match job.step(AnchorEvent::Windows(Err("Niri IPC transport error".into())), 25) {
        AnchorEffect::Finish(Err(EngineError::Compositor { message })) => assert_eq!(message, "Niri IPC transport error"),
        other => panic!("unexpected {other:?}"),
    }
    // A finished job accepts nothing more.
    assert!(matches!(job.step(AnchorEvent::Slept, 30), AnchorEffect::Finish(Err(EngineError::UnexpectedEvent))));

    let mut job = AnchorJob::new("chat".to_string(), chat_pad(), vec![], 1, 100);
    assert!(matches!(job.step(AnchorEvent::Slept, 0), AnchorEffect::Finish(Err(EngineError::UnexpectedEvent))));
}

#[test]
fn anchor_round_moves_only_new_matching_windows() {
    let pad = chat_pad();
    let windows = vec![
        window(7, "Throne", 2),
        window(42, "org.telegram.desktop", 2),
        window(43, "Throne", 30),
        window(44, "kitty", 2),
    ];
    let round = plan_anchor_round(&pad, &windows, &vec![7], &vec![43]).unwrap();
    assert_eq!(round.moves, vec![moved(42)]);
    assert_eq!(round.anchored, vec![43, 42]);
}

#[test]
fn initial_focus_needs_an_anchored_matching_window() {
    let mut pad = chat_pad();
    let windows = vec![window(42, "org.telegram.desktop", 30), window(43, "Throne", 30)];
    assert_eq!(plan_initial_focus(&pad, &windows, &vec![43]).unwrap(), vec![]);
    pad.initial_focus_full_width = false;
    assert_eq!(
        plan_initial_focus(&pad, &windows, &vec![43, 42]).unwrap(),
        vec![CompositorAction::FocusWindow { id: 42 }]
    );
    pad.initial_focus_app_id = None;
    assert_eq!(plan_initial_focus(&pad, &windows, &vec![43, 42]).unwrap(), vec![]);
    pad.initial_focus_app_id = Some("(".into());
    assert!(plan_initial_focus(&pad, &windows, &vec![42]).is_err());
}

#[test]
fn spawns_use_commands_or_else_the_single_command() {
    let mut pad = chat_pad();
    assert_eq!(
        plan_spawns(&pad),
        vec![
            CompositorAction::Spawn { command: vec!["Telegram".into()] },
            CompositorAction::Spawn { command: vec!["throne".into()] },
        ]
    );
    pad.commands.clear();
    pad.command = vec!["kitty".into(), "--class".into(), "x".into()];
    assert_eq!(plan_spawns(&pad), vec![CompositorAction::Spawn { command: pad.command.clone() }]);
}

#[test]
fn job_names_the_pattern_that_fails() {
    let mut pad = chat_pad();
    pad.match_title = Some("(".into());
    let mut job = AnchorJob::new("chat".to_string(), pad, vec![], 1, 100);
    job.step(AnchorEvent::Start, 0);
    job.step(AnchorEvent::Slept, 25);
    match job.step(AnchorEvent::Windows(Ok(vec![])), 25) {
        AnchorEffect::Finish(Err(EngineError::InvalidPattern { name, field, .. })) => {
            assert_eq!(name, "chat");
            assert_eq!(field, PatternField::Title);
        }
        other => panic!("unexpected {other:?}"),
    }
}
