use niri_scratch::config::{Config, ConfigError, DaemonConfig, PatternField, ScratchpadConfig};
use niri_scratch::model::NamedMap;

fn pad(workspace: &str) -> ScratchpadConfig {
    ScratchpadConfig {
        workspace: workspace.into(),
        command: vec!["kitty".into()],
        commands: vec![],
        match_app_id: Some("^kitty$".into()),
        match_title: None,
        launch_if_missing: true,
        adopt_existing: true,
        initial_focus_app_id: None,
        initial_focus_full_width: false,
    }
}

fn config_with(pads: Vec<(&str, ScratchpadConfig)>) -> Config {
    let mut scratchpads = NamedMap::new();
    for (name, pad) in pads {
        scratchpads.insert(name.to_string(), pad);
    }
    Config { daemon: DaemonConfig::default(), scratchpads }
}

#[test]
fn defaults_match_documented_values() {
    let daemon = DaemonConfig::default();
    assert_eq!(daemon.socket, None);
    assert_eq!(daemon.state_file, None);
    assert_eq!(daemon.launch_timeout_ms, 8000);
    assert!(daemon.background_anchor);

    let pad = ScratchpadConfig::default();
    assert_eq!(pad.workspace, "");
    assert!(pad.command.is_empty());
    assert!(pad.commands.is_empty());
    assert_eq!(pad.match_app_id, None);
    assert_eq!(pad.match_title, None);
    assert!(pad.launch_if_missing);
    assert!(pad.adopt_existing);
    assert_eq!(pad.initial_focus_app_id, None);
    assert!(!pad.initial_focus_full_width);

    let config = Config::default();
    assert!(config.scratchpads.entries().is_empty());
    assert_eq!(config.daemon.launch_timeout_ms, 8000);
}

#[test]
fn empty_configuration_is_rejected() {
    assert!(matches!(Config::default().validate(), Err(ConfigError::NoScratchpads)));
}

#[test]
fn valid_configuration_is_accepted() {
    let config = config_with(vec![("terminal", pad("scratch:terminal")), ("web", pad("scratch:web"))]);
    assert!(config.validate().is_ok());
}

#[test]
fn names_must_be_non_blank_and_free_of_whitespace() {
    for name in ["", "   ", "my pad", "tab\tname", "nbsp\u{a0}name", "line\nbreak"] {
        let config = config_with(vec![(name, pad("scratch:x"))]);
        match config.validate() {
            Err(ConfigError::InvalidName { name: rejected }) => assert_eq!(rejected, name),
            other => panic!("{name:?} gave {other:?}"),
        }
    }
    assert!(config_with(vec![("dash-and_underscore", pad("scratch:x"))]).validate().is_ok());
}

#[test]
fn blank_workspace_is_rejected() {
    for workspace in ["", "  \t"] {
        let config = config_with(vec![("a", pad(workspace))]);
        assert!(matches!(
            config.validate(),
            Err(ConfigError::EmptyWorkspace { name }) if name == "a"
        ));
    }
}

#[test]
fn normal_workspaces_one_to_six_are_reserved() {
    for workspace in ["1", "2", "3", "4", "5", "6"] {
        let config = config_with(vec![("a", pad(workspace))]);
        assert!(matches!(
            config.validate(),
            Err(ConfigError::ReservedWorkspace { name }) if name == "a"
        ));
    }
    for workspace in ["7", "0", "10", " 1", "1 "] {
        assert!(config_with(vec![("a", pad(workspace))]).validate().is_ok(), "{workspace:?}");
    }
}

#[test]
fn shared_workspace_names_both_scratchpads() {
    let config = config_with(vec![("a", pad("scratch:same")), ("b", pad("scratch:same"))]);
    match config.validate() {
        Err(ConfigError::SharedWorkspace { previous, name, workspace }) => {
            assert_eq!(previous, "a");
            assert_eq!(name, "b");
            assert_eq!(workspace, "scratch:same");
        }
        other => panic!("unexpected {other:?}"),
    }
}

#[test]
fn launching_needs_a_command() {
    let mut missing = pad("scratch:x");
    missing.command.clear();
    let config = config_with(vec![("a", missing.clone())]);
    assert!(matches!(config.validate(), Err(ConfigError::MissingCommand { name }) if name == "a"));

    missing.launch_if_missing = false;
    assert!(config_with(vec![("a", missing.clone())]).validate().is_ok());

    missing.launch_if_missing = true;
    missing.commands = vec![vec!["firefox".into()]];
    assert!(config_with(vec![("a", missing)]).validate().is_ok());
}

#[test]
fn empty_entry_in_commands_is_rejected() {
    let mut bad = pad("scratch:x");
    bad.commands = vec![vec!["telegram".into()], vec![]];
    let config = config_with(vec![("a", bad)]);
    assert!(matches!(config.validate(), Err(ConfigError::EmptyCommand { name }) if name == "a"));
}

#[test]
fn each_pattern_must_compile() {
    let mut app = pad("scratch:x");
    app.match_app_id = Some("(".into());
    let mut title = pad("scratch:x");
    title.match_title = Some("[a-".into());
    let mut focus = pad("scratch:x");
    focus.initial_focus_app_id = Some("*".into());
    for (bad, expected) in [
        (app, PatternField::AppId),
        (title, PatternField::Title),
        (focus, PatternField::InitialFocusAppId),
    ] {
        match config_with(vec![("a", bad)]).validate() {
            Err(ConfigError::InvalidPattern { name, field, .. }) => {
                assert_eq!(name, "a");
                assert_eq!(field, expected);
            }
            other => panic!("unexpected {other:?}"),
        }
    }
}

#[test]
fn first_failing_rule_of_first_failing_scratchpad_is_reported() {
    let mut first = pad("");
    first.match_app_id = Some("(".into());
    let second = pad("1");
    let config = config_with(vec![("a", first), ("b", second)]);
    assert!(matches!(config.validate(), Err(ConfigError::EmptyWorkspace { name }) if name == "a"));

    let mut reserved_and_bad = pad("3");
    reserved_and_bad.commands = vec![vec![]];
    let config = config_with(vec![("a", pad("scratch:a")), ("b", reserved_and_bad)]);
    assert!(matches!(config.validate(), Err(ConfigError::ReservedWorkspace { name }) if name == "b"));
}

#[test]
fn scratchpads_are_checked_in_name_order() {
    let mut reserved = pad("1");
    reserved.command.clear();
    let config = config_with(vec![("web", reserved), ("chat", pad(""))]);
    let names: Vec<&str> = config.scratchpads.entries().iter().map(|(name, _)| name.as_str()).collect();
    assert_eq!(names, vec!["chat", "web"]);
    assert!(matches!(config.validate(), Err(ConfigError::EmptyWorkspace { name }) if name == "chat"));

    let config = config_with(vec![("zeta", pad("scratch:same")), ("alpha", pad("scratch:same"))]);
    assert!(matches!(
        config.validate(),
        Err(ConfigError::SharedWorkspace { previous, name, .. }) if previous == "alpha" && name == "zeta"
    ));
}
