use niri_scratch::config::{default_config_path, expand_path, Config, Environment, PathError};
use niri_scratch::text::{join_path, replace_all};

fn env(
    home: Option<&str>,
    runtime_dir: Option<&str>,
    state_home: Option<&str>,
    config_home: Option<&str>,
) -> Environment {
    Environment {
        home: home.map(String::from),
        runtime_dir: runtime_dir.map(String::from),
        state_home: state_home.map(String::from),
        config_home: config_home.map(String::from),
    }
}

fn full_env() -> Environment {
    env(Some("/home/u"), Some("/run/user/1000"), Some("/var/state"), Some("/etc/cfg"))
}

#[test]
fn expand_path_replaces_each_variable() {
    let e = full_env();
    assert_eq!(expand_path("${HOME}/a", &e), "/home/u/a");
    assert_eq!(expand_path("${XDG_RUNTIME_DIR}/ns.sock", &e), "/run/user/1000/ns.sock");
    assert_eq!(expand_path("${XDG_STATE_HOME}/s.json", &e), "/var/state/s.json");
    assert_eq!(expand_path("${HOME}:${HOME}", &e), "/home/u:/home/u");
    assert_eq!(expand_path("/plain/path", &e), "/plain/path");
    assert_eq!(expand_path("$HOME/a", &e), "$HOME/a");
}

#[test]
fn expand_path_state_home_falls_back_to_home() {
    let e = env(Some("/home/u"), None, None, None);
    assert_eq!(expand_path("${XDG_STATE_HOME}/s.json", &e), "/home/u/.local/state/s.json");
    assert_eq!(expand_path("${XDG_RUNTIME_DIR}/x", &e), "/x");
    let bare = env(None, None, None, None);
    assert_eq!(expand_path("${HOME}/x", &bare), "/x");
    assert_eq!(expand_path("${XDG_STATE_HOME}/x", &bare), "/.local/state/x");
}

#[test]
fn variables_are_expanded_in_order() {
    // Each replacement runs over the text the previous one left, as successive `str::replace`
    // calls do: a later variable inside an earlier value is expanded, an earlier one is not.
    let e = env(Some("${XDG_RUNTIME_DIR}"), Some("/run"), None, None);
    assert_eq!(expand_path("${HOME}/x", &e), "/run/x");
    let e = env(Some("/h"), Some("${HOME}"), None, None);
    assert_eq!(expand_path("${XDG_RUNTIME_DIR}/x", &e), "${HOME}/x");
}

#[test]
fn replace_all_matches_str_replace() {
    for (s, pat, rep) in [
        ("aaa", "aa", "b"),
        ("abcabc", "bc", ""),
        ("", "x", "y"),
        ("xyz", "xyz", "xyzxyz"),
        ("héllo wörld", "ö", "oe"),
        ("abc", "", "x"),
        ("", "", "y"),
        ("é", "", "-"),
    ] {
        assert_eq!(replace_all(s, pat, rep), s.replace(pat, rep));
    }
}

#[test]
fn join_path_matches_path_join() {
    assert_eq!(join_path("/a", "b/c"), "/a/b/c");
    assert_eq!(join_path("/a/", "b"), "/a/b");
    assert_eq!(join_path("", "b"), "b");
    assert_eq!(join_path("/a", "/b"), "/b");
    assert_eq!(join_path("/a", ""), "/a/");
}

#[test]
fn socket_path_uses_configuration_then_runtime_dir() {
    let mut config = Config::default();
    assert_eq!(config.socket_path(&full_env()), Ok("/run/user/1000/niri-scratch.sock".to_string()));
    assert_eq!(config.socket_path(&env(Some("/h"), None, None, None)), Err(PathError::RuntimeDirUnset));
    config.daemon.socket = Some("${XDG_RUNTIME_DIR}/custom.sock".into());
    assert_eq!(config.socket_path(&full_env()), Ok("/run/user/1000/custom.sock".to_string()));
    assert_eq!(config.socket_path(&env(None, None, None, None)), Ok("/custom.sock".to_string()));
}

#[test]
fn state_path_uses_configuration_then_state_home_then_home() {
    let mut config = Config::default();
    assert_eq!(config.state_path(&full_env()), Ok("/var/state/niri-scratch/state.json".to_string()));
    assert_eq!(
        config.state_path(&env(Some("/home/u"), None, None, None)),
        Ok("/home/u/.local/state/niri-scratch/state.json".to_string())
    );
    assert_eq!(config.state_path(&env(None, Some("/run"), None, None)), Err(PathError::StateDirUnset));
    config.daemon.state_file = Some("${HOME}/state.json".into());
    assert_eq!(config.state_path(&full_env()), Ok("/home/u/state.json".to_string()));
}

#[test]
fn default_config_path_uses_config_home_then_home() {
    assert_eq!(default_config_path(&full_env()), Ok("/etc/cfg/niri-scratch/config.toml".to_string()));
    assert_eq!(
        default_config_path(&env(Some("/home/u"), None, None, None)),
        Ok("/home/u/.config/niri-scratch/config.toml".to_string())
    );
    assert_eq!(
        default_config_path(&env(None, Some("/run"), Some("/s"), None)),
        Err(PathError::ConfigDirUnset)
    );
}
