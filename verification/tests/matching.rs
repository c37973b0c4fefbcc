use niri_scratch::config::ScratchpadConfig;
use niri_scratch::model::{NamedMap, ReturnTarget, WindowInfo, WorkspaceInfo};
use niri_scratch::pattern::{check_pattern, Pattern};
use niri_scratch::text::{compare_text, TextOrder};
use niri_scratch::model::CompositorAction;
use niri_scratch::planning::{
    compute_show_origin, find_focused, find_named, matching_windows, plan_hiding, plan_presentation,
    WindowMatcher,
};

fn pad(app_id: Option<&str>, title: Option<&str>) -> ScratchpadConfig {
    ScratchpadConfig {
        workspace: "scratch:t".into(),
        command: vec!["kitty".into()],
        commands: vec![],
        match_app_id: app_id.map(String::from),
        match_title: title.map(String::from),
        launch_if_missing: true,
        adopt_existing: true,
        initial_focus_app_id: None,
        initial_focus_full_width: false,
    }
}

fn window(id: u64, app_id: Option<&str>, title: Option<&str>, workspace_id: Option<u64>) -> WindowInfo {
    WindowInfo { id, title: title.map(String::from), app_id: app_id.map(String::from), workspace_id }
}

fn sample() -> Vec<WindowInfo> {
    vec![
        window(1, Some("scratch-terminal"), Some("htop"), Some(1)),
        window(2, Some("firefox"), Some("Mozilla Firefox"), Some(1)),
        window(3, None, Some("htop"), None),
        window(4, Some("scratch-terminal"), None, Some(2)),
    ]
}

#[test]
fn no_pattern_matches_no_window() {
    assert_eq!(matching_windows(&pad(None, None), &sample()).unwrap(), Vec::<u64>::new());
}

#[test]
fn patterns_search_anywhere_in_the_text() {
    assert_eq!(matching_windows(&pad(Some("term"), None), &sample()).unwrap(), vec![1, 4]);
    assert_eq!(matching_windows(&pad(Some("^scratch-terminal$"), None), &sample()).unwrap(), vec![1, 4]);
    assert_eq!(matching_windows(&pad(Some("^term"), None), &sample()).unwrap(), Vec::<u64>::new());
}

#[test]
fn a_missing_field_never_matches_its_pattern() {
    assert_eq!(matching_windows(&pad(None, Some("htop")), &sample()).unwrap(), vec![1, 3]);
    assert_eq!(matching_windows(&pad(Some(".*"), None), &sample()).unwrap(), vec![1, 2, 4]);
}

#[test]
fn both_patterns_must_match() {
    assert_eq!(matching_windows(&pad(Some("scratch"), Some("^htop$")), &sample()).unwrap(), vec![1]);
}

#[test]
fn broken_patterns_are_errors() {
    assert!(matching_windows(&pad(Some("("), None), &sample()).is_err());
    assert!(matching_windows(&pad(None, Some("a{2,1}")), &sample()).is_err());
    assert!(WindowMatcher::for_pad(&pad(Some("["), None)).is_err());
    assert!(check_pattern("(").is_err());
    assert!(check_pattern("^(a|b)+$").is_ok());
}

#[test]
fn compiled_pattern_tests_its_source() {
    assert!(Pattern::compile("^org\\.telegram").is_ok());
    assert!(Pattern::compile("(").is_err());
    let windows = vec![
        window(1, Some("org.telegram.desktop"), None, None),
        window(2, Some("org_telegram"), None, None),
        window(3, Some("xorg.telegram"), None, None),
    ];
    assert_eq!(matching_windows(&pad(Some("^org\\.telegram"), None), &windows).unwrap(), vec![1]);
}

#[test]
fn matcher_agrees_with_matching_windows() {
    let p = pad(Some("terminal"), Some("htop"));
    let matcher = WindowMatcher::for_pad(&p).unwrap();
    let ids: Vec<u64> = sample().iter().filter(|w| matcher.matches(w)).map(|w| w.id).collect();
    assert_eq!(ids, matching_windows(&p, &sample()).unwrap());
    assert_eq!(ids, vec![1]);
}

fn ws(id: u64, name: Option<&str>, output: Option<&str>, focused: bool, active_window_id: Option<u64>) -> WorkspaceInfo {
    WorkspaceInfo {
        id,
        name: name.map(String::from),
        output: output.map(String::from),
        is_active: focused,
        is_focused: focused,
        active_window_id,
    }
}

#[test]
fn lookups_find_the_first_workspace() {
    let all = vec![
        ws(1, Some("1"), None, false, None),
        ws(2, Some("scratch:t"), None, true, None),
        ws(3, Some("scratch:t"), None, true, None),
    ];
    assert_eq!(find_focused(&all), Some(1));
    assert_eq!(find_named(&all, "scratch:t"), Some(1));
    assert_eq!(find_named(&all, "missing"), None);
    assert_eq!(find_focused(&all[..1].to_vec()), None);
}

#[test]
fn presentation_adopts_moves_and_resumes() {
    let mut scratch = ws(20, Some("scratch:t"), None, false, None);
    let workspaces = vec![ws(1, Some("1"), None, true, None), scratch.clone()];
    let windows = sample();
    let plan = plan_presentation(&pad(Some("scratch-terminal"), None), &workspaces, &windows).unwrap();
    assert!(plan.has_windows);
    assert_eq!(
        plan.actions,
        vec![
            CompositorAction::MoveWindowToWorkspace { window_id: 1, workspace: "scratch:t".into() },
            CompositorAction::MoveWindowToWorkspace { window_id: 4, workspace: "scratch:t".into() },
            CompositorAction::FocusWorkspaceByName { workspace: "scratch:t".into() },
        ]
    );

    // Window 4 already lives on the scratchpad and was its last focused window.
    scratch.id = 2;
    scratch.active_window_id = Some(4);
    let workspaces = vec![ws(1, Some("1"), None, true, None), scratch];
    let plan = plan_presentation(&pad(Some("scratch-terminal"), None), &workspaces, &windows).unwrap();
    assert_eq!(
        plan.actions,
        vec![
            CompositorAction::MoveWindowToWorkspace { window_id: 1, workspace: "scratch:t".into() },
            CompositorAction::FocusWorkspaceByName { workspace: "scratch:t".into() },
            CompositorAction::FocusWindow { id: 4 },
        ]
    );

    let mut keep = pad(Some("scratch-terminal"), None);
    keep.adopt_existing = false;
    let plan = plan_presentation(&keep, &workspaces, &windows).unwrap();
    assert!(plan.has_windows);
    assert_eq!(
        plan.actions,
        vec![
            CompositorAction::FocusWorkspaceByName { workspace: "scratch:t".into() },
            CompositorAction::FocusWindow { id: 4 },
        ]
    );
}

#[test]
fn hiding_prefers_the_origin_id_then_its_name() {
    let workspaces = vec![ws(5, Some("1"), Some("DP-1"), false, None), ws(6, Some("1"), Some("eDP-1"), false, None)];
    let windows = vec![window(9, None, None, Some(6))];
    let by_name = Some(ReturnTarget {
        workspace_id: 77,
        workspace_name: Some("1".into()),
        output_name: Some("eDP-1".into()),
        focused_window_id: Some(9),
    });
    assert_eq!(
        plan_hiding(&by_name, &workspaces, &windows),
        (vec![CompositorAction::FocusWorkspaceById { id: 6 }, CompositorAction::FocusWindow { id: 9 }], true)
    );
    let any_output = Some(ReturnTarget { workspace_id: 77, workspace_name: Some("1".into()), output_name: None, focused_window_id: Some(9) });
    assert_eq!(plan_hiding(&any_output, &workspaces, &windows), (vec![CompositorAction::FocusWorkspaceById { id: 5 }], true));
    let by_id = Some(ReturnTarget { workspace_id: 6, workspace_name: None, output_name: None, focused_window_id: None });
    assert_eq!(plan_hiding(&by_id, &workspaces, &windows), (vec![CompositorAction::FocusWorkspaceById { id: 6 }], true));
    assert_eq!(plan_hiding(&None, &workspaces, &windows), (vec![CompositorAction::FocusWorkspacePrevious], false));
}

#[test]
fn show_origin_is_flattened_through_scratchpads() {
    let pads = vec![("a".to_string(), pad(None, None))];
    let mut origins = NamedMap::new();
    let focused_scratch = ws(20, Some("scratch:t"), Some("eDP-1"), true, Some(3));
    let direct = compute_show_origin(&pads, &origins, &focused_scratch, "scratch:u");
    assert_eq!(
        direct,
        ReturnTarget { workspace_id: 20, workspace_name: Some("scratch:t".into()), output_name: Some("eDP-1".into()), focused_window_id: Some(3) }
    );
    let normal = ReturnTarget { workspace_id: 1, workspace_name: Some("1".into()), output_name: None, focused_window_id: None };
    origins.insert("a".to_string(), normal.clone());
    assert_eq!(compute_show_origin(&pads, &origins, &focused_scratch, "scratch:u"), normal);
    // A target that is the shown scratchpad's own workspace is never copied.
    let own = ReturnTarget { workspace_id: 30, workspace_name: Some("scratch:u".into()), output_name: None, focused_window_id: None };
    origins.insert("a".to_string(), own);
    assert_eq!(compute_show_origin(&pads, &origins, &focused_scratch, "scratch:u"), direct);
}

#[test]
fn named_map_keeps_one_value_per_name() {
    let mut map: NamedMap<u64> = NamedMap::new();
    assert!(!map.contains_key("a"));
    map.insert("a".into(), 1);
    map.insert("b".into(), 2);
    map.insert("a".into(), 3);
    assert_eq!(map.get("a"), Some(&3));
    assert_eq!(map.get("b"), Some(&2));
    assert_eq!(map.entries().len(), 2);
    assert_eq!(map.remove("a"), Some(3));
    assert_eq!(map.remove("a"), None);
    assert!(!map.contains_key("a"));
    assert_eq!(map.entries(), &vec![("b".to_string(), 2)]);
}

#[test]
fn named_map_keeps_names_in_ascending_order() {
    let mut map: NamedMap<u64> = NamedMap::new();
    let mut value = 0u64;
    for name in ["web", "é", "a", "Z", "ab", "abc", "", "a"] {
        map.insert(name.to_string(), value);
        value += 1;
    }
    let names: Vec<&str> = map.entries().iter().map(|(name, _)| name.as_str()).collect();
    assert_eq!(names, vec!["", "Z", "a", "ab", "abc", "web", "é"]);
    let mut sorted = names.clone();
    sorted.sort();
    assert_eq!(names, sorted);
    assert_eq!(map.get("a"), Some(&7));
    assert_eq!(map.remove("ab"), Some(4));
    let names: Vec<&str> = map.entries().iter().map(|(name, _)| name.as_str()).collect();
    assert_eq!(names, vec!["", "Z", "a", "abc", "web", "é"]);
}

#[test]
fn text_order_is_the_order_of_str() {
    let pairs = [
        ("a", "b"),
        ("a", "ab"),
        ("", ""),
        ("", "x"),
        ("é", "z"),
        ("Z", "a"),
        ("abc", "abd"),
        ("scratch:web", "scratch:chat"),
        ("\u{10000}", "\u{ffff}"),
    ];
    for (a, b) in pairs {
        let expected = if a < b {
            TextOrder::Less
        } else if a == b {
            TextOrder::Same
        } else {
            TextOrder::Greater
        };
        assert_eq!(compare_text(a, b), expected, "{a:?} {b:?}");
        assert_eq!(compare_text(b, a) == TextOrder::Less, b < a);
    }
}
