//! The decisions of the daemon, each a function of the configuration, the persisted state and
//! a compositor snapshot: which windows belong to a scratchpad, what showing and hiding one
//! asks of the compositor, where a hidden scratchpad returns to, and which newly launched
//! windows are anchored.

use vstd::prelude::*;
use crate::text::{opt_view, opt_str_eq, opt_eq, str_eq, copy_string, debug_quoted, quote_debug};
use crate::pattern::{Pattern, PatternFailure, regex_is_match, regex_error_text, check_pattern};
use crate::model::{
    WorkspaceInfo, WorkspaceView, WindowInfo, WindowView, CompositorAction, ActionView,
    ReturnTarget, ReturnTargetView, find_first, find_from, lemma_find_first, workspaces_view,
    windows_view, actions_view, NamedMap, lemma_filter_take_step, lemma_filter_push, contains_u64,
};
use crate::config::{ScratchpadConfig, PadView, PatternField, issue_text, pattern_fails, pads_view, copy_strings, ConfigError, ConfigIssue};

verus! {

// ---------------------------------------------------------------------------------------------
// Which windows belong to a scratchpad.

/// `pattern` is absent, or the text is present and the pattern matches it.
pub open spec fn field_matches(pattern: Option<Seq<char>>, text: Option<Seq<char>>) -> bool {
    match pattern {
        None => true,
        Some(p) => match text {
            Some(t) => regex_is_match(p, t),
            None => false,
        },
    }
}

/// A window belongs to a scratchpad when the scratchpad has at least one pattern and every
/// pattern it has matches the window's app id or title.
pub open spec fn pad_matches(pad: PadView, w: WindowView) -> bool {
    (pad.match_app_id is Some || pad.match_title is Some)
        && field_matches(pad.match_app_id, w.app_id)
        && field_matches(pad.match_title, w.title)
}

/// Both patterns of the scratchpad compile.
pub open spec fn patterns_compile(pad: PadView) -> bool {
    !pattern_fails(pad.match_app_id) && !pattern_fails(pad.match_title)
}

/// The pattern reported when the patterns of a scratchpad do not both compile: the app id
/// pattern when it fails, else the title pattern, the order in which they are compiled.
pub open spec fn failing_field(pad: PadView) -> PatternField {
    if pattern_fails(pad.match_app_id) {
        PatternField::AppId
    } else {
        PatternField::Title
    }
}

/// The pattern text reported when the patterns of a scratchpad do not both compile.
pub open spec fn failing_pattern(pad: PadView) -> Seq<char> {
    if pattern_fails(pad.match_app_id) {
        pad.match_app_id->0
    } else {
        pad.match_title->0
    }
}

/// The field reported for a scratchpad whose patterns do not both compile.
pub fn failing_pattern_field(pad: &ScratchpadConfig) -> (r: PatternField)
    ensures
        r == failing_field(pad@),
{
    match &pad.match_app_id {
        Some(p) => match check_pattern(p.as_str()) {
            Err(_) => PatternField::AppId,
            Ok(()) => PatternField::Title,
        },
        None => PatternField::Title,
    }
}

/// The ids of the windows that belong to the scratchpad, in the compositor's order.
pub open spec fn matching_ids(pad: PadView, wins: Seq<WindowView>) -> Seq<u64> {
    wins.filter(|w: WindowView| pad_matches(pad, w)).map_values(|w: WindowView| w.id)
}

/// The compiled patterns of one scratchpad.
pub struct WindowMatcher {
    app: Option<Pattern>,
    title: Option<Pattern>,
}

fn compile_optional(p: &Option<String>) -> (r: Result<Option<Pattern>, PatternFailure>)
    ensures
        r is Ok <==> !pattern_fails(opt_view(*p)),
        r matches Err(f) ==> f.text@ == regex_error_text(opt_view(*p)->0),
        r matches Ok(c) ==> match c {
            Some(c) => opt_view(*p) == Some(c.source()),
            None => p is None,
        },
{
    match p {
        Some(p) => match Pattern::compile(p.as_str()) {
            Ok(c) => Ok(Some(c)),
            Err(e) => Err(e),
        },
        None => Ok(None),
    }
}

fn optional_matches(p: &Option<Pattern>, text: &Option<String>) -> (r: bool)
    ensures
        r == field_matches(
            match p {
                Some(c) => Some(c.source()),
                None => None,
            },
            opt_view(*text),
        ),
{
    match p {
        None => true,
        Some(c) => match text {
            Some(t) => c.is_match(t.as_str()),
            None => false,
        },
    }
}

impl WindowMatcher {
    pub closed spec fn app_source(&self) -> Option<Seq<char>> {
        match self.app {
            Some(c) => Some(c.source()),
            None => None,
        }
    }

    pub closed spec fn title_source(&self) -> Option<Seq<char>> {
        match self.title {
            Some(c) => Some(c.source()),
            None => None,
        }
    }

    /// The matcher of `pad` holds the patterns of `pad`.
    pub open spec fn is_for(&self, pad: PadView) -> bool {
        self.app_source() == pad.match_app_id && self.title_source() == pad.match_title
    }

    /// Compiles the app id pattern, then the title pattern; fails when either does not compile.
    pub fn for_pad(pad: &ScratchpadConfig) -> (r: Result<WindowMatcher, PatternFailure>)
        ensures
            r is Ok <==> patterns_compile(pad@),
            r matches Err(f) ==> f.text@ == regex_error_text(failing_pattern(pad@)),
            r matches Ok(m) ==> m.is_for(pad@),
    {
        let app = match compile_optional(&pad.match_app_id) {
            Ok(a) => a,
            Err(e) => return Err(e),
        };
        let title = match compile_optional(&pad.match_title) {
            Ok(t) => t,
            Err(e) => return Err(e),
        };
        Ok(WindowMatcher { app, title })
    }

    pub fn matches(&self, w: &WindowInfo) -> (r: bool)
        ensures
            forall|pad: PadView| self.is_for(pad) ==> r == pad_matches(pad, w@),
    {
        let has_any = self.app.is_some() || self.title.is_some();
        has_any && optional_matches(&self.app, &w.app_id) && optional_matches(&self.title, &w.title)
    }
}

/// The ids of the windows that belong to `pad`, in order; fails when a pattern does not
/// compile.
pub fn matching_windows(pad: &ScratchpadConfig, windows: &Vec<WindowInfo>) -> (r: Result<Vec<u64>, PatternFailure>)
    ensures
        r is Ok <==> patterns_compile(pad@),
        r matches Err(f) ==> f.text@ == regex_error_text(failing_pattern(pad@)),
        r matches Ok(ids) ==> ids@ == matching_ids(pad@, windows_view(windows@)),
{
    let matcher = match WindowMatcher::for_pad(pad) {
        Ok(m) => m,
        Err(e) => return Err(e),
    };
    let ghost wv = windows_view(windows@);
    let ghost p = |w: WindowView| pad_matches(pad@, w);
    let mut ids: Vec<u64> = Vec::new();
    let n = windows.len();
    let mut i: usize = 0;
    while i < n
        invariant
            n == windows@.len(),
            wv == windows_view(windows@),
            p == (|w: WindowView| pad_matches(pad@, w)),
            matcher.is_for(pad@),
            i <= n,
            ids@ == wv.take(i as int).filter(p).map_values(|w: WindowView| w.id),
        decreases n - i,
    {
        proof {
            lemma_filter_take_step(wv, p, i as int);
        }
        assert(wv[i as int] == windows@[i as int]@);
        let m = matcher.matches(&windows[i]);
        assert(m == p(wv[i as int]));
        if m {
            ids.push(windows[i].id);
        }
        assert(ids@ =~= wv.take(i + 1).filter(p).map_values(|w: WindowView| w.id));
        i = i + 1;
    }
    assert(wv.take(n as int) =~= wv);
    Ok(ids)
}

// ---------------------------------------------------------------------------------------------
// Lookups in a snapshot.

/// The focused workspace: the first one the compositor reports as focused.
pub open spec fn focused_position(ws: Seq<WorkspaceView>) -> Option<int> {
    find_first(ws, |w: WorkspaceView| w.is_focused)
}

/// The first workspace named `name`.
pub open spec fn named_position(ws: Seq<WorkspaceView>, name: Seq<char>) -> Option<int> {
    find_first(ws, |w: WorkspaceView| w.name == Some(name))
}

pub fn find_focused(workspaces: &Vec<WorkspaceInfo>) -> (r: Option<usize>)
    ensures
        match r {
            Some(i) => i < workspaces@.len() && focused_position(workspaces_view(workspaces@)) == Some(i as int),
            None => focused_position(workspaces_view(workspaces@)) is None,
        },
{
    let ghost wv = workspaces_view(workspaces@);
    let ghost p = |w: WorkspaceView| w.is_focused;
    let n = workspaces.len();
    let mut i: usize = 0;
    while i < n
        invariant
            n == workspaces@.len(),
            wv == workspaces_view(workspaces@),
            p == (|w: WorkspaceView| w.is_focused),
            i <= n,
            find_first(wv, p) == find_from(wv, p, i as int),
        decreases n - i,
    {
        if workspaces[i].is_focused {
            return Some(i);
        }
        i = i + 1;
    }
    None
}

pub fn find_named(workspaces: &Vec<WorkspaceInfo>, name: &str) -> (r: Option<usize>)
    ensures
        match r {
            Some(i) => i < workspaces@.len() && named_position(workspaces_view(workspaces@), name@) == Some(i as int),
            None => named_position(workspaces_view(workspaces@), name@) is None,
        },
{
    let ghost wv = workspaces_view(workspaces@);
    let ghost p = |w: WorkspaceView| w.name == Some(name@);
    let n = workspaces.len();
    let mut i: usize = 0;
    while i < n
        invariant
            n == workspaces@.len(),
            wv == workspaces_view(workspaces@),
            p == (|w: WorkspaceView| w.name == Some(name@)),
            i <= n,
            find_first(wv, p) == find_from(wv, p, i as int),
        decreases n - i,
    {
        if opt_str_eq(&workspaces[i].name, name) {
            return Some(i);
        }
        i = i + 1;
    }
    None
}

// ---------------------------------------------------------------------------------------------
// Showing a scratchpad.

/// The return target that showing a scratchpad from workspace `f` records.
pub open spec fn direct_origin(f: WorkspaceView) -> ReturnTargetView {
    ReturnTargetView {
        workspace_id: f.id,
        workspace_name: f.name,
        output_name: f.output,
        focused_window_id: f.active_window_id,
    }
}

/// The first scratchpad whose workspace is `f`.
pub open spec fn owner_position(pads: Seq<(Seq<char>, PadView)>, f: WorkspaceView) -> Option<int> {
    find_first(pads, |e: (Seq<char>, PadView)| f.name == Some(e.1.workspace))
}

pub proof fn lemma_owner_position(pads: Seq<(Seq<char>, PadView)>, f: WorkspaceView)
    ensures
        match owner_position(pads, f) {
            Some(j) => 0 <= j < pads.len() && f.name == Some(pads[j].1.workspace)
                && forall|k: int| 0 <= k < j ==> f.name != Some((#[trigger] pads[k]).1.workspace),
            None => forall|k: int| 0 <= k < pads.len() ==> f.name != Some((#[trigger] pads[k]).1.workspace),
        },
{
    lemma_find_first(pads, |e: (Seq<char>, PadView)| f.name == Some(e.1.workspace));
}

pub proof fn lemma_focused_position(ws: Seq<WorkspaceView>)
    ensures
        match focused_position(ws) {
            Some(j) => 0 <= j < ws.len() && ws[j].is_focused
                && forall|k: int| 0 <= k < j ==> !(#[trigger] ws[k]).is_focused,
            None => forall|k: int| 0 <= k < ws.len() ==> !(#[trigger] ws[k]).is_focused,
        },
{
    lemma_find_first(ws, |w: WorkspaceView| w.is_focused);
}

pub proof fn lemma_named_position(ws: Seq<WorkspaceView>, name: Seq<char>)
    ensures
        match named_position(ws, name) {
            Some(j) => 0 <= j < ws.len() && ws[j].name == Some(name)
                && forall|k: int| 0 <= k < j ==> (#[trigger] ws[k]).name != Some(name),
            None => forall|k: int| 0 <= k < ws.len() ==> (#[trigger] ws[k]).name != Some(name),
        },
{
    lemma_find_first(ws, |w: WorkspaceView| w.name == Some(name));
}

pub proof fn lemma_return_position(o: ReturnTargetView, ws: Seq<WorkspaceView>)
    ensures
        (exists|k: int| 0 <= k < ws.len() && (#[trigger] ws[k]).id == o.workspace_id) ==> {
            &&& return_position(o, ws) is Some
            &&& ws[return_position(o, ws)->0].id == o.workspace_id
        },
        match return_position(o, ws) {
            Some(k) => 0 <= k < ws.len(),
            None => true,
        },
{
    lemma_find_first(ws, |w: WorkspaceView| w.id == o.workspace_id);
    match o.workspace_name {
        Some(n) => lemma_find_first(
            ws,
            |w: WorkspaceView| w.name == Some(n) && (o.output_name is None || w.output == o.output_name),
        ),
        None => {},
    }
}

/// The origin recorded when the scratchpad whose workspace is `own` is shown from the focused
/// workspace `f`. When `f` is itself a scratchpad's workspace and that scratchpad has an origin,
/// that origin is kept, so that hiding returns to the last normal workspace rather than to
/// another scratchpad; unless that origin is the shown scratchpad's own workspace, which hiding
/// must never return to: then `f` is recorded.
pub open spec fn show_origin(
    pads: Seq<(Seq<char>, PadView)>,
    origins: Map<Seq<char>, ReturnTargetView>,
    f: WorkspaceView,
    own: Seq<char>,
) -> ReturnTargetView {
    match owner_position(pads, f) {
        Some(j) if origins.contains_key(pads[j].0) && origins[pads[j].0].workspace_name != Some(own) =>
            origins[pads[j].0],
        _ => direct_origin(f),
    }
}

fn direct_target(focused: &WorkspaceInfo) -> (r: ReturnTarget)
    ensures
        r@ == direct_origin(focused@),
{
    ReturnTarget {
        workspace_id: focused.id,
        workspace_name: crate::text::copy_opt_string(&focused.name),
        output_name: crate::text::copy_opt_string(&focused.output),
        focused_window_id: focused.active_window_id,
    }
}

pub fn compute_show_origin(
    pads: &Vec<(String, ScratchpadConfig)>,
    origins: &NamedMap<ReturnTarget>,
    focused: &WorkspaceInfo,
    own: &str,
) -> (r: ReturnTarget)
    ensures
        r@ == show_origin(pads_view(pads@), origins@, focused@, own@),
{
    let ghost pv = pads_view(pads@);
    let ghost f = focused@;
    let ghost p = |e: (Seq<char>, PadView)| f.name == Some(e.1.workspace);
    let n = pads.len();
    let mut i: usize = 0;
    while i < n
        invariant
            n == pads@.len(),
            pv == pads_view(pads@),
            f == focused@,
            p == (|e: (Seq<char>, PadView)| f.name == Some(e.1.workspace)),
            i <= n,
            find_first(pv, p) == find_from(pv, p, i as int),
        decreases n - i,
    {
        assert(pv[i as int] == (pads@[i as int].0@, pads@[i as int].1@));
        if opt_str_eq(&focused.name, pads[i].1.workspace.as_str()) {
            return match origins.get(pads[i].0.as_str()) {
                Some(o) => if opt_str_eq(&o.workspace_name, own) {
                    direct_target(focused)
                } else {
                    o.copy()
                },
                None => direct_target(focused),
            };
        }
        i = i + 1;
    }
    direct_target(focused)
}

/// The windows that showing the scratchpad brings into view: those that belong to it and are
/// already on its workspace, or any that belong to it when it adopts windows.
pub open spec fn selected_windows(pad: PadView, wins: Seq<WindowView>, scratch_id: Option<u64>) -> Seq<WindowView> {
    wins.filter(|w: WindowView| pad_matches(pad, w) && (w.workspace_id == scratch_id || pad.adopt_existing))
}

/// Moves of selected windows that are not yet on the scratchpad's workspace.
pub open spec fn adopt_moves(pad: PadView, selected: Seq<WindowView>, scratch_id: Option<u64>) -> Seq<ActionView> {
    selected.filter(|w: WindowView| pad.adopt_existing && w.workspace_id != scratch_id).map_values(
        |w: WindowView| ActionView::MoveWindowToWorkspace { window_id: w.id, workspace: pad.workspace },
    )
}

/// The scratchpad workspace's own last-focused window, when it is among the selected windows.
pub open spec fn resume_window(
    ws: Seq<WorkspaceView>,
    scratch: Option<int>,
    selected: Seq<WindowView>,
) -> Option<u64> {
    match scratch {
        Some(k) => match ws[k].active_window_id {
            Some(last) => if exists|j: int| 0 <= j < selected.len() && (#[trigger] selected[j]).id == last {
                Some(last)
            } else {
                None
            },
            None => None,
        },
        None => None,
    }
}

/// What showing asks of the compositor once the origin is recorded: adopt windows, focus the
/// scratchpad workspace, and, when it already holds windows, focus its last-focused window.
pub open spec fn presentation(pad: PadView, ws: Seq<WorkspaceView>, wins: Seq<WindowView>) -> Seq<ActionView> {
    let scratch = named_position(ws, pad.workspace);
    let scratch_id = match scratch {
        Some(k) => Some(ws[k].id),
        None => None,
    };
    let selected = selected_windows(pad, wins, scratch_id);
    let focus = seq![ActionView::FocusWorkspaceByName { workspace: pad.workspace }];
    adopt_moves(pad, selected, scratch_id) + focus + if selected.len() > 0 {
        match resume_window(ws, scratch, selected) {
            Some(id) => seq![ActionView::FocusWindow { id }],
            None => Seq::empty(),
        }
    } else {
        Seq::empty()
    }
}

/// Whether the scratchpad already has windows to show.
pub open spec fn has_windows(pad: PadView, ws: Seq<WorkspaceView>, wins: Seq<WindowView>) -> bool {
    let scratch = named_position(ws, pad.workspace);
    let scratch_id = match scratch {
        Some(k) => Some(ws[k].id),
        None => None,
    };
    selected_windows(pad, wins, scratch_id).len() > 0
}

/// The actions that present a scratchpad, and whether it already had windows.
pub struct Presentation {
    pub actions: Vec<CompositorAction>,
    pub has_windows: bool,
}

fn opt_u64_eq(a: Option<u64>, b: Option<u64>) -> (r: bool)
    ensures
        r == (a == b),
{
    match (a, b) {
        (Some(x), Some(y)) => x == y,
        (None, None) => true,
        _ => false,
    }
}

pub fn plan_presentation(
    pad: &ScratchpadConfig,
    workspaces: &Vec<WorkspaceInfo>,
    windows: &Vec<WindowInfo>,
) -> (r: Result<Presentation, PatternFailure>)
    ensures
        r is Ok <==> patterns_compile(pad@),
        r matches Err(f) ==> f.text@ == regex_error_text(failing_pattern(pad@)),
        r matches Ok(p) ==> {
            &&& actions_view(p.actions@) == presentation(pad@, workspaces_view(workspaces@), windows_view(windows@))
            &&& p.has_windows == has_windows(pad@, workspaces_view(workspaces@), windows_view(windows@))
        },
{
    let matcher = match WindowMatcher::for_pad(pad) {
        Ok(m) => m,
        Err(e) => return Err(e),
    };
    let ghost wsv = workspaces_view(workspaces@);
    let ghost wv = windows_view(windows@);
    let ghost padv = pad@;
    let scratch = find_named(workspaces, pad.workspace.as_str());
    let scratch_id: Option<u64> = match scratch {
        Some(k) => Some(workspaces[k].id),
        None => None,
    };
    let ghost sel_p = |w: WindowView| pad_matches(padv, w) && (w.workspace_id == scratch_id || padv.adopt_existing);
    let ghost mv_p = |w: WindowView| padv.adopt_existing && w.workspace_id != scratch_id;
    let ghost mv_f = |w: WindowView| ActionView::MoveWindowToWorkspace { window_id: w.id, workspace: padv.workspace };
    let mut actions: Vec<CompositorAction> = Vec::new();
    let mut selected_ids: Vec<u64> = Vec::new();
    let n = windows.len();
    let mut i: usize = 0;
    while i < n
        invariant
            n == windows@.len(),
            wv == windows_view(windows@),
            padv == pad@,
            matcher.is_for(padv),
            sel_p == (|w: WindowView| pad_matches(padv, w) && (w.workspace_id == scratch_id || padv.adopt_existing)),
            mv_p == (|w: WindowView| padv.adopt_existing && w.workspace_id != scratch_id),
            mv_f == (|w: WindowView| ActionView::MoveWindowToWorkspace { window_id: w.id, workspace: padv.workspace }),
            i <= n,
            selected_ids@ == wv.take(i as int).filter(sel_p).map_values(|w: WindowView| w.id),
            actions_view(actions@) == wv.take(i as int).filter(sel_p).filter(mv_p).map_values(mv_f),
        decreases n - i,
    {
        let w = &windows[i];
        proof {
            lemma_filter_take_step(wv, sel_p, i as int);
        }
        assert(wv[i as int] == w@);
        let ghost before = wv.take(i as int).filter(sel_p);
        let m = matcher.matches(w);
        assert(m == pad_matches(padv, w@));
        if m && (opt_u64_eq(w.workspace_id, scratch_id) || pad.adopt_existing) {
            selected_ids.push(w.id);
            assert(wv.take(i + 1).filter(sel_p) == before.push(w@));
            proof {
                lemma_filter_push(before, w@, mv_p);
            }
            let ghost old_actions = actions_view(actions@);
            if pad.adopt_existing && !opt_u64_eq(w.workspace_id, scratch_id) {
                actions.push(CompositorAction::MoveWindowToWorkspace {
                    window_id: w.id,
                    workspace: copy_string(&pad.workspace),
                });
                assert(actions_view(actions@) =~= old_actions.push(mv_f(w@)));
                assert(before.filter(mv_p).push(w@).map_values(mv_f) =~= before.filter(mv_p).map_values(mv_f).push(mv_f(w@)));
            } else {
                assert(!mv_p(w@));
            }
        } else {
            assert(wv.take(i + 1).filter(sel_p) == before);
        }
        assert(actions_view(actions@) =~= wv.take(i + 1).filter(sel_p).filter(mv_p).map_values(mv_f));
        assert(selected_ids@ =~= wv.take(i + 1).filter(sel_p).map_values(|w: WindowView| w.id));
        i = i + 1;
    }
    assert(wv.take(n as int) =~= wv);
    let ghost selected = wv.filter(sel_p);
    assert(selected_windows(padv, wv, scratch_id) == selected);
    assert(adopt_moves(padv, selected, scratch_id) == selected.filter(mv_p).map_values(mv_f));
    let ghost moves = actions_view(actions@);
    actions.push(CompositorAction::FocusWorkspaceByName { workspace: copy_string(&pad.workspace) });
    let has_windows = selected_ids.len() > 0;
    let ghost with_focus = actions_view(actions@);
    assert(with_focus =~= moves + seq![ActionView::FocusWorkspaceByName { workspace: padv.workspace }]);
    if has_windows {
        if let Some(k) = scratch {
            if let Some(last) = workspaces[k].active_window_id {
                let found = contains_u64(&selected_ids, last);
                proof {
                    if found {
                        let j = choose|j: int| 0 <= j < selected_ids@.len() && selected_ids@[j] == last;
                        assert(selected[j].id == last);
                    } else {
                        assert forall|j: int| 0 <= j < selected.len() implies (#[trigger] selected[j]).id != last by {
                            assert(selected_ids@[j] == selected[j].id);
                        }
                    }
                }
                if found {
                    actions.push(CompositorAction::FocusWindow { id: last });
                    assert(actions_view(actions@) =~= with_focus + seq![ActionView::FocusWindow { id: last }]);
                } else {
                    assert(actions_view(actions@) =~= with_focus + Seq::<ActionView>::empty());
                }
            } else {
                assert(actions_view(actions@) =~= with_focus + Seq::<ActionView>::empty());
            }
        } else {
            assert(actions_view(actions@) =~= with_focus + Seq::<ActionView>::empty());
        }
    } else {
        assert(actions_view(actions@) =~= with_focus + Seq::<ActionView>::empty());
    }
    Ok(Presentation { actions, has_windows })
}

/// The commands launched for a scratchpad: its `commands`, or else its single `command`.
pub open spec fn launch_commands(pad: PadView) -> Seq<Seq<Seq<char>>> {
    if pad.commands.len() == 0 {
        seq![pad.command]
    } else {
        pad.commands
    }
}

pub open spec fn spawn_actions(pad: PadView) -> Seq<ActionView> {
    launch_commands(pad).map_values(|c: Seq<Seq<char>>| ActionView::Spawn { command: c })
}

pub fn plan_spawns(pad: &ScratchpadConfig) -> (r: Vec<CompositorAction>)
    ensures
        actions_view(r@) == spawn_actions(pad@),
        r@.len() == launch_commands(pad@).len(),
{
    let mut r: Vec<CompositorAction> = Vec::new();
    if pad.commands.len() == 0 {
        r.push(CompositorAction::Spawn { command: copy_strings(&pad.command) });
        assert(actions_view(r@) =~= spawn_actions(pad@));
        return r;
    }
    let n = pad.commands.len();
    let mut i: usize = 0;
    while i < n
        invariant
            n == pad.commands@.len(),
            n > 0,
            i <= n,
            r@.len() == i,
            forall|k: int| 0 <= k < i ==> (#[trigger] r@[k])@ == (ActionView::Spawn { command: pad@.commands[k] }),
        decreases n - i,
    {
        r.push(CompositorAction::Spawn { command: copy_strings(&pad.commands[i]) });
        i = i + 1;
    }
    assert(actions_view(r@) =~= spawn_actions(pad@));
    r
}

// ---------------------------------------------------------------------------------------------
// Hiding a scratchpad.

/// The workspace a return target names: the workspace with its id, or else the first
/// workspace with its name on its output (any output when the target has none).
pub open spec fn return_position(o: ReturnTargetView, ws: Seq<WorkspaceView>) -> Option<int> {
    match find_first(ws, |w: WorkspaceView| w.id == o.workspace_id) {
        Some(k) => Some(k),
        None => match o.workspace_name {
            Some(n) => find_first(
                ws,
                |w: WorkspaceView| w.name == Some(n) && (o.output_name is None || w.output == o.output_name),
            ),
            None => None,
        },
    }
}

/// The origin's window, when it is still on the workspace returned to.
pub open spec fn return_window(o: ReturnTargetView, target_id: u64, wins: Seq<WindowView>) -> Option<u64> {
    match o.focused_window_id {
        Some(wid) => if exists|j: int|
            0 <= j < wins.len() && (#[trigger] wins[j]).id == wid && wins[j].workspace_id == Some(target_id) {
            Some(wid)
        } else {
            None
        },
        None => None,
    }
}

/// What hiding asks of the compositor, and whether the origin was restored: focus the origin's
/// workspace and then its window, or else go back to the previous workspace.
pub open spec fn hiding(origin: Option<ReturnTargetView>, ws: Seq<WorkspaceView>, wins: Seq<WindowView>) -> (Seq<ActionView>, bool) {
    match origin {
        Some(o) => match return_position(o, ws) {
            Some(k) => (
                seq![ActionView::FocusWorkspaceById { id: ws[k].id }] + match return_window(o, ws[k].id, wins) {
                    Some(wid) => seq![ActionView::FocusWindow { id: wid }],
                    None => Seq::empty(),
                },
                true,
            ),
            None => (seq![ActionView::FocusWorkspacePrevious], false),
        },
        None => (seq![ActionView::FocusWorkspacePrevious], false),
    }
}

fn find_by_id(workspaces: &Vec<WorkspaceInfo>, id: u64) -> (r: Option<usize>)
    ensures
        match r {
            Some(i) => i < workspaces@.len() && find_first(workspaces_view(workspaces@), |w: WorkspaceView| w.id == id) == Some(i as int),
            None => find_first(workspaces_view(workspaces@), |w: WorkspaceView| w.id == id) is None,
        },
{
    let ghost wv = workspaces_view(workspaces@);
    let ghost p = |w: WorkspaceView| w.id == id;
    let n = workspaces.len();
    let mut i: usize = 0;
    while i < n
        invariant
            n == workspaces@.len(),
            wv == workspaces_view(workspaces@),
            p == (|w: WorkspaceView| w.id == id),
            i <= n,
            find_first(wv, p) == find_from(wv, p, i as int),
        decreases n - i,
    {
        if workspaces[i].id == id {
            return Some(i);
        }
        i = i + 1;
    }
    None
}

fn find_by_name_on_output(workspaces: &Vec<WorkspaceInfo>, name: &String, output: &Option<String>) -> (r: Option<usize>)
    ensures
        ({
            let p = |w: WorkspaceView| w.name == Some(name@) && (opt_view(*output) is None || w.output == opt_view(*output));
            match r {
                Some(i) => i < workspaces@.len() && find_first(workspaces_view(workspaces@), p) == Some(i as int),
                None => find_first(workspaces_view(workspaces@), p) is None,
            }
        }),
{
    let ghost wv = workspaces_view(workspaces@);
    let ghost p = |w: WorkspaceView| w.name == Some(name@) && (opt_view(*output) is None || w.output == opt_view(*output));
    let n = workspaces.len();
    let mut i: usize = 0;
    while i < n
        invariant
            n == workspaces@.len(),
            wv == workspaces_view(workspaces@),
            p == (|w: WorkspaceView| w.name == Some(name@) && (opt_view(*output) is None || w.output == opt_view(*output))),
            i <= n,
            find_first(wv, p) == find_from(wv, p, i as int),
        decreases n - i,
    {
        if opt_str_eq(&workspaces[i].name, name.as_str()) && (output.is_none() || opt_eq(&workspaces[i].output, output)) {
            return Some(i);
        }
        i = i + 1;
    }
    None
}

fn has_window_on(windows: &Vec<WindowInfo>, wid: u64, tid: u64) -> (r: bool)
    ensures
        r == exists|j: int|
            0 <= j < windows@.len() && (#[trigger] windows_view(windows@)[j]).id == wid
                && windows_view(windows@)[j].workspace_id == Some(tid),
{
    let ghost wv = windows_view(windows@);
    let n = windows.len();
    let mut j: usize = 0;
    while j < n
        invariant
            n == windows@.len(),
            wv == windows_view(windows@),
            j <= n,
            forall|q: int| 0 <= q < j ==> !((#[trigger] wv[q]).id == wid && wv[q].workspace_id == Some(tid)),
        decreases n - j,
    {
        if windows[j].id == wid && opt_u64_eq(windows[j].workspace_id, Some(tid)) {
            assert(wv[j as int].id == wid && wv[j as int].workspace_id == Some(tid));
            return true;
        }
        j = j + 1;
    }
    false
}

/// The actions that hide a scratchpad, and whether they restore its origin.
pub fn plan_hiding(
    origin: &Option<ReturnTarget>,
    workspaces: &Vec<WorkspaceInfo>,
    windows: &Vec<WindowInfo>,
) -> (r: (Vec<CompositorAction>, bool))
    ensures
        (actions_view(r.0@), r.1) == hiding(
            match origin {
                Some(o) => Some(o@),
                None => None,
            },
            workspaces_view(workspaces@),
            windows_view(windows@),
        ),
{
    let ghost wsv = workspaces_view(workspaces@);
    let ghost wv = windows_view(windows@);
    let mut actions: Vec<CompositorAction> = Vec::new();
    if let Some(o) = origin {
        let target = match find_by_id(workspaces, o.workspace_id) {
            Some(k) => Some(k),
            None => match &o.workspace_name {
                Some(name) => find_by_name_on_output(workspaces, name, &o.output_name),
                None => None,
            },
        };
        if let Some(k) = target {
            let tid = workspaces[k].id;
            actions.push(CompositorAction::FocusWorkspaceById { id: tid });
            let ghost first = actions_view(actions@);
            assert(first =~= seq![ActionView::FocusWorkspaceById { id: wsv[k as int].id }]);
            if let Some(wid) = o.focused_window_id {
                let found = has_window_on(windows, wid, tid);
                if found {
                    actions.push(CompositorAction::FocusWindow { id: wid });
                    assert(actions_view(actions@) =~= first + seq![ActionView::FocusWindow { id: wid }]);
                } else {
                    assert(actions_view(actions@) =~= first + Seq::<ActionView>::empty());
                }
            } else {
                assert(actions_view(actions@) =~= first + Seq::<ActionView>::empty());
            }
            return (actions, true);
        }
    }
    actions.push(CompositorAction::FocusWorkspacePrevious);
    assert(actions_view(actions@) =~= seq![ActionView::FocusWorkspacePrevious]);
    (actions, false)
}


// ---------------------------------------------------------------------------------------------
// Anchoring newly launched windows.

/// Ids of windows that belong to the scratchpad, were not there before the launch and are not
/// anchored yet.
pub open spec fn fresh_ids(pad: PadView, wins: Seq<WindowView>, before: Seq<u64>, anchored: Seq<u64>) -> Seq<u64> {
    matching_ids(pad, wins).filter(|id: u64| !before.contains(id) && !anchored.contains(id))
}

/// `anchored` with the ids added that it does not hold yet, in order.
pub open spec fn with_ids(anchored: Seq<u64>, ids: Seq<u64>) -> Seq<u64>
    decreases ids.len(),
{
    if ids.len() == 0 {
        anchored
    } else {
        let r = with_ids(anchored, ids.drop_last());
        if r.contains(ids.last()) {
            r
        } else {
            r.push(ids.last())
        }
    }
}

pub proof fn lemma_with_ids_no_duplicates(anchored: Seq<u64>, ids: Seq<u64>)
    requires
        anchored.no_duplicates(),
    ensures
        with_ids(anchored, ids).no_duplicates(),
        forall|x: u64| #[trigger] with_ids(anchored, ids).contains(x) <==> (anchored.contains(x) || ids.contains(x)),
    decreases ids.len(),
{
    if ids.len() > 0 {
        lemma_with_ids_no_duplicates(anchored, ids.drop_last());
        let r = with_ids(anchored, ids.drop_last());
        assert forall|x: u64| #[trigger] with_ids(anchored, ids).contains(x) <==> (anchored.contains(x) || ids.contains(x)) by {
            if ids.contains(x) && !ids.drop_last().contains(x) {
                let j = choose|j: int| 0 <= j < ids.len() && ids[j] == x;
                if j < ids.len() - 1 {
                    assert(ids.drop_last()[j] == x);
                }
            }
            if ids.drop_last().contains(x) {
                let j = choose|j: int| 0 <= j < ids.drop_last().len() && ids.drop_last()[j] == x;
                assert(ids[j] == x);
            }
            if !r.contains(ids.last()) {
                if r.push(ids.last()).contains(x) && x != ids.last() {
                    let j = choose|j: int| 0 <= j < r.push(ids.last()).len() && r.push(ids.last())[j] == x;
                    assert(r[j] == x);
                }
                if r.contains(x) {
                    let j = choose|j: int| 0 <= j < r.len() && r[j] == x;
                    assert(r.push(ids.last())[j] == x);
                }
                assert(r.push(ids.last())[r.len() as int] == ids.last());
            }
        }
    }
}

/// Moves of the given windows to the scratchpad's workspace.
pub open spec fn anchor_moves(pad: PadView, ids: Seq<u64>) -> Seq<ActionView> {
    ids.map_values(|id: u64| ActionView::MoveWindowToWorkspace { window_id: id, workspace: pad.workspace })
}

/// One round of anchoring: the moves to perform and the anchored windows afterwards.
pub struct AnchorRound {
    pub moves: Vec<CompositorAction>,
    pub anchored: Vec<u64>,
}

pub fn plan_anchor_round(
    pad: &ScratchpadConfig,
    windows: &Vec<WindowInfo>,
    before: &Vec<u64>,
    anchored: &Vec<u64>,
) -> (r: Result<AnchorRound, PatternFailure>)
    ensures
        r is Ok <==> patterns_compile(pad@),
        r matches Err(f) ==> f.text@ == regex_error_text(failing_pattern(pad@)),
        r matches Ok(round) ==> {
            let fresh = fresh_ids(pad@, windows_view(windows@), before@, anchored@);
            &&& actions_view(round.moves@) == anchor_moves(pad@, fresh)
            &&& round.anchored@ == with_ids(anchored@, fresh)
        },
{
    let ids = match matching_windows(pad, windows) {
        Ok(ids) => ids,
        Err(e) => return Err(e),
    };
    let ghost fp = |id: u64| !before@.contains(id) && !anchored@.contains(id);
    let ghost mf = |id: u64| ActionView::MoveWindowToWorkspace { window_id: id, workspace: pad@.workspace };
    let mut moves: Vec<CompositorAction> = Vec::new();
    let mut fresh: Vec<u64> = Vec::new();
    let mut next: Vec<u64> = copy_ids(anchored);
    let n = ids.len();
    let mut i: usize = 0;
    while i < n
        invariant
            n == ids@.len(),
            i <= n,
            fp == (|id: u64| !before@.contains(id) && !anchored@.contains(id)),
            mf == (|id: u64| ActionView::MoveWindowToWorkspace { window_id: id, workspace: pad@.workspace }),
            fresh@ == ids@.take(i as int).filter(fp),
            actions_view(moves@) == fresh@.map_values(mf),
            next@ == with_ids(anchored@, fresh@),
        decreases n - i,
    {
        let id = ids[i];
        proof {
            lemma_filter_take_step(ids@, fp, i as int);
        }
        if !contains_u64(before, id) && !contains_u64(anchored, id) {
            let ghost old_fresh = fresh@;
            let ghost old_moves = actions_view(moves@);
            fresh.push(id);
            moves.push(CompositorAction::MoveWindowToWorkspace { window_id: id, workspace: copy_string(&pad.workspace) });
            assert(actions_view(moves@) =~= old_moves.push(mf(id)));
            assert(fresh@.map_values(mf) =~= old_fresh.map_values(mf).push(mf(id)));
            assert(fresh@.drop_last() =~= old_fresh);
            if !contains_u64(&next, id) {
                next.push(id);
            }
        }
        i = i + 1;
    }
    assert(ids@.take(n as int) =~= ids@);
    Ok(AnchorRound { moves, anchored: next })
}

fn copy_ids(v: &Vec<u64>) -> (r: Vec<u64>)
    ensures
        r@ == v@,
{
    let mut r: Vec<u64> = Vec::new();
    let n = v.len();
    let mut i: usize = 0;
    while i < n
        invariant
            n == v@.len(),
            i <= n,
            r@ == v@.take(i as int),
        decreases n - i,
    {
        r.push(v[i]);
        assert(r@ =~= v@.take(i + 1));
        i = i + 1;
    }
    assert(v@.take(n as int) =~= v@);
    r
}

/// The first anchored window whose app id matches the initial focus pattern.
pub open spec fn focus_target(pattern: Seq<char>, wins: Seq<WindowView>, anchored: Seq<u64>) -> Option<int> {
    find_first(wins, |w: WindowView| anchored.contains(w.id) && field_matches(Some(pattern), w.app_id))
}

/// What the first complete anchoring asks of the compositor: focus the window named by the
/// initial focus pattern and, when asked, move its column first and fill the width.
pub open spec fn initial_focus(pad: PadView, wins: Seq<WindowView>, anchored: Seq<u64>) -> Seq<ActionView> {
    match pad.initial_focus_app_id {
        None => Seq::empty(),
        Some(p) => match focus_target(p, wins, anchored) {
            None => Seq::empty(),
            Some(k) => seq![ActionView::FocusWindow { id: wins[k].id }] + if pad.initial_focus_full_width {
                seq![ActionView::MoveColumnToFirst, ActionView::FillColumnWidth]
            } else {
                Seq::empty()
            },
        },
    }
}

#[verifier::loop_isolation(false)]
pub fn plan_initial_focus(
    pad: &ScratchpadConfig,
    windows: &Vec<WindowInfo>,
    anchored: &Vec<u64>,
) -> (r: Result<Vec<CompositorAction>, PatternFailure>)
    ensures
        r is Ok <==> !pattern_fails(pad@.initial_focus_app_id),
        r matches Err(f) ==> f.text@ == regex_error_text(pad@.initial_focus_app_id->0),
        r matches Ok(actions) ==> actions_view(actions@) == initial_focus(pad@, windows_view(windows@), anchored@),
{
    let mut actions: Vec<CompositorAction> = Vec::new();
    let source = match &pad.initial_focus_app_id {
        None => {
            assert(actions_view(actions@) =~= Seq::<ActionView>::empty());
            return Ok(actions);
        },
        Some(s) => s,
    };
    let pattern = match Pattern::compile(source.as_str()) {
        Ok(c) => c,
        Err(e) => return Err(e),
    };
    let ghost wv = windows_view(windows@);
    let ghost p = |w: WindowView| anchored@.contains(w.id) && field_matches(Some(source@), w.app_id);
    let n = windows.len();
    let mut i: usize = 0;
    while i < n
        invariant
            n == windows@.len(),
            wv == windows_view(windows@),
            pattern.source() == source@,
            p == (|w: WindowView| anchored@.contains(w.id) && field_matches(Some(source@), w.app_id)),
            i <= n,
            find_first(wv, p) == find_from(wv, p, i as int),
            actions@.len() == 0,
        decreases n - i,
    {
        let w = &windows[i];
        assert(wv[i as int] == w@);
        let hit = contains_u64(anchored, w.id) && match &w.app_id {
            Some(a) => pattern.is_match(a.as_str()),
            None => false,
        };
        if hit {
            actions.push(CompositorAction::FocusWindow { id: w.id });
            if pad.initial_focus_full_width {
                actions.push(CompositorAction::MoveColumnToFirst);
                actions.push(CompositorAction::FillColumnWidth);
                assert(actions_view(actions@) =~= seq![ActionView::FocusWindow { id: w.id }] + seq![ActionView::MoveColumnToFirst, ActionView::FillColumnWidth]);
            } else {
                assert(actions_view(actions@) =~= seq![ActionView::FocusWindow { id: w.id }] + Seq::<ActionView>::empty());
            }
            return Ok(actions);
        }
        i = i + 1;
    }
    assert(actions_view(actions@) =~= Seq::<ActionView>::empty());
    Ok(actions)
}

// ---------------------------------------------------------------------------------------------
// Errors of the engine.

/// Why a request failed.
#[derive(Debug)]
pub enum EngineError {
    UnknownScratchpad { name: String },
    NoFocusedWorkspace,
    /// The compositor failed a query or an action.
    Compositor { message: String },
    /// The state file could not be written.
    Save { message: String },
    /// A pattern of the named scratchpad does not compile.
    InvalidPattern { name: String, field: PatternField, error: PatternFailure },
    InvalidConfig { error: ConfigError },
    /// The driver handed back an event the engine was not waiting for.
    UnexpectedEvent,
}

pub ghost enum ErrorView {
    UnknownScratchpad { name: Seq<char> },
    NoFocusedWorkspace,
    Compositor { message: Seq<char> },
    Save { message: Seq<char> },
    InvalidPattern { name: Seq<char>, field: PatternField, text: Seq<char> },
    InvalidConfig { issue: ConfigIssue },
    UnexpectedEvent,
}

impl View for EngineError {
    type V = ErrorView;

    open spec fn view(&self) -> ErrorView {
        match self {
            EngineError::UnknownScratchpad { name } => ErrorView::UnknownScratchpad { name: name@ },
            EngineError::NoFocusedWorkspace => ErrorView::NoFocusedWorkspace,
            EngineError::Compositor { message } => ErrorView::Compositor { message: message@ },
            EngineError::Save { message } => ErrorView::Save { message: message@ },
            EngineError::InvalidPattern { name, field, error } =>
                ErrorView::InvalidPattern { name: name@, field: *field, text: error.text@ },
            EngineError::InvalidConfig { error } => ErrorView::InvalidConfig { issue: error.issue() },
            EngineError::UnexpectedEvent => ErrorView::UnexpectedEvent,
        }
    }
}

/// The message that a failed request is answered with.
pub open spec fn error_text(e: ErrorView) -> Seq<char> {
    match e {
        ErrorView::UnknownScratchpad { name } => "unknown scratchpad "@ + debug_quoted(name),
        ErrorView::NoFocusedWorkspace => "Niri reports no focused workspace"@,
        ErrorView::Compositor { message } => message,
        ErrorView::Save { message } => message,
        ErrorView::InvalidPattern { text, .. } => text,
        ErrorView::InvalidConfig { issue } => issue_text(issue),
        ErrorView::UnexpectedEvent => "the engine received an event it was not waiting for"@,
    }
}

impl EngineError {
    /// The message that the failed request is answered with.
    pub fn message(&self) -> (r: String)
        ensures
            r@ == error_text(self@),
    {
        match self {
            EngineError::UnknownScratchpad { name } => {
                let quoted = quote_debug(name.as_str());
                String::from_str("unknown scratchpad ").concat(quoted.as_str())
            },
            EngineError::NoFocusedWorkspace => String::from_str("Niri reports no focused workspace"),
            EngineError::Compositor { message } => message.clone(),
            EngineError::Save { message } => message.clone(),
            EngineError::InvalidPattern { error, .. } => error.text.clone(),
            EngineError::InvalidConfig { error } => error.message(),
            EngineError::UnexpectedEvent => String::from_str("the engine received an event it was not waiting for"),
        }
    }
}

// ---------------------------------------------------------------------------------------------
// Status and diagnosis.

/// The state of one scratchpad.
#[derive(Debug)]
pub struct StatusEntry {
    pub name: String,
    pub workspace: String,
    /// Its workspace is the focused one.
    pub visible: bool,
    /// Its workspace is the active one on its output.
    pub active: bool,
    pub window_ids: Vec<u64>,
    pub origin: Option<ReturnTarget>,
}

pub ghost struct StatusView {
    pub name: Seq<char>,
    pub workspace: Seq<char>,
    pub visible: bool,
    pub active: bool,
    pub window_ids: Seq<u64>,
    pub origin: Option<ReturnTargetView>,
}

impl View for StatusEntry {
    type V = StatusView;

    open spec fn view(&self) -> StatusView {
        StatusView {
            name: self.name@,
            workspace: self.workspace@,
            visible: self.visible,
            active: self.active,
            window_ids: self.window_ids@,
            origin: match self.origin {
                Some(o) => Some(o@),
                None => None,
            },
        }
    }
}

pub open spec fn status_view(v: Seq<StatusEntry>) -> Seq<StatusView> {
    v.map_values(|e: StatusEntry| e@)
}

pub open spec fn is_considered(only: Option<Seq<char>>, name: Seq<char>) -> bool {
    match only {
        Some(n) => n == name,
        None => true,
    }
}

/// The status of one scratchpad.
pub open spec fn status_of(
    name: Seq<char>,
    pad: PadView,
    ws: Seq<WorkspaceView>,
    wins: Seq<WindowView>,
    origins: Map<Seq<char>, ReturnTargetView>,
) -> StatusView {
    let k = named_position(ws, pad.workspace);
    StatusView {
        name,
        workspace: pad.workspace,
        visible: match k {
            Some(k) => ws[k].is_focused,
            None => false,
        },
        active: match k {
            Some(k) => ws[k].is_active,
            None => false,
        },
        window_ids: matching_ids(pad, wins),
        origin: if origins.contains_key(name) {
            Some(origins[name])
        } else {
            None
        },
    }
}

/// A scratchpad that a status request considers and whose patterns do not both compile.
pub open spec fn broken_considered(only: Option<Seq<char>>) -> spec_fn((Seq<char>, PadView)) -> bool {
    |e: (Seq<char>, PadView)| is_considered(only, e.0) && !patterns_compile(e.1)
}

/// The outcome of a status request: a pattern of a considered scratchpad fails to compile,
/// or the one asked for is not configured, or else the status of every considered scratchpad,
/// in configuration order.
pub open spec fn status_outcome(
    pads: Seq<(Seq<char>, PadView)>,
    only: Option<Seq<char>>,
    ws: Seq<WorkspaceView>,
    wins: Seq<WindowView>,
    origins: Map<Seq<char>, ReturnTargetView>,
) -> Result<Seq<StatusView>, ErrorView> {
    let considered = pads.filter(|e: (Seq<char>, PadView)| is_considered(only, e.0));
    if let Some(j) = find_first(pads, broken_considered(only)) {
        Err(ErrorView::InvalidPattern {
            name: pads[j].0,
            field: failing_field(pads[j].1),
            text: regex_error_text(failing_pattern(pads[j].1)),
        })
    } else if only is Some && !(exists|i: int| 0 <= i < pads.len() && (#[trigger] pads[i]).0 == only->0) {
        Err(ErrorView::UnknownScratchpad { name: only->0 })
    } else {
        Ok(considered.map_values(|e: (Seq<char>, PadView)| status_of(e.0, e.1, ws, wins, origins)))
    }
}

pub fn plan_status(
    pads: &Vec<(String, ScratchpadConfig)>,
    origins: &NamedMap<ReturnTarget>,
    only: &Option<String>,
    workspaces: &Vec<WorkspaceInfo>,
    windows: &Vec<WindowInfo>,
) -> (r: Result<Vec<StatusEntry>, EngineError>)
    ensures
        match r {
            Ok(entries) => status_outcome(pads_view(pads@), opt_view(*only), workspaces_view(workspaces@), windows_view(windows@), origins@)
                == Ok::<Seq<StatusView>, ErrorView>(status_view(entries@)),
            Err(e) => status_outcome(pads_view(pads@), opt_view(*only), workspaces_view(workspaces@), windows_view(windows@), origins@)
                == Err::<Seq<StatusView>, ErrorView>(e@),
        },
{
    let ghost pv = pads_view(pads@);
    let ghost ov = opt_view(*only);
    let ghost wsv = workspaces_view(workspaces@);
    let ghost wv = windows_view(windows@);
    let ghost cp = |e: (Seq<char>, PadView)| is_considered(ov, e.0);
    let ghost sf = |e: (Seq<char>, PadView)| status_of(e.0, e.1, wsv, wv, origins@);
    let mut entries: Vec<StatusEntry> = Vec::new();
    let mut known = false;
    let n = pads.len();
    let mut i: usize = 0;
    while i < n
        invariant
            n == pads@.len(),
            pv == pads_view(pads@),
            ov == opt_view(*only),
            wsv == workspaces_view(workspaces@),
            wv == windows_view(windows@),
            cp == (|e: (Seq<char>, PadView)| is_considered(ov, e.0)),
            sf == (|e: (Seq<char>, PadView)| status_of(e.0, e.1, wsv, wv, origins@)),
            i <= n,
            find_first(pv, broken_considered(ov)) == find_from(pv, broken_considered(ov), i as int),
            status_view(entries@) == pv.take(i as int).filter(cp).map_values(sf),
            ov is Some ==> (known == (exists|q: int| 0 <= q < i && (#[trigger] pv[q]).0 == ov->0)),
        decreases n - i,
    {
        let name = &pads[i].0;
        let pad = &pads[i].1;
        assert(pv[i as int] == (name@, pad@));
        proof {
            lemma_filter_take_step(pv, cp, i as int);
        }
        let considered = match only {
            Some(o) => str_eq(o.as_str(), name.as_str()),
            None => true,
        };
        if let Some(o) = only {
            if considered {
                known = true;
            }
        }
        if considered {
            let ids = match matching_windows(pad, windows) {
                Ok(ids) => ids,
                Err(error) => {
                    assert(broken_considered(ov)(pv[i as int]));
                    return Err(EngineError::InvalidPattern {
                        name: name.clone(),
                        field: failing_pattern_field(pad),
                        error,
                    });
                },
            };
            let k = find_named(workspaces, pad.workspace.as_str());
            let visible = match k {
                Some(k) => workspaces[k].is_focused,
                None => false,
            };
            let active = match k {
                Some(k) => workspaces[k].is_active,
                None => false,
            };
            let origin = match origins.get(name.as_str()) {
                Some(o) => Some(o.copy()),
                None => None,
            };
            let entry = StatusEntry { name: name.clone(), workspace: pad.workspace.clone(), visible, active, window_ids: ids, origin };
            assert(entry@ == sf(pv[i as int]));
            let ghost old_entries = status_view(entries@);
            entries.push(entry);
            assert(status_view(entries@) =~= old_entries.push(sf(pv[i as int])));
            assert(pv.take(i as int).filter(cp).push(pv[i as int]).map_values(sf) =~= pv.take(i as int).filter(cp).map_values(sf).push(sf(pv[i as int])));
        }
        i = i + 1;
    }
    assert(pv.take(n as int) =~= pv);
    if let Some(o) = only {
        if !known {
            return Err(EngineError::UnknownScratchpad { name: o.clone() });
        }
    }
    Ok(entries)
}

/// A configured scratchpad whose workspace the compositor does not have.
#[derive(Debug)]
pub struct MissingWorkspace {
    pub scratchpad: String,
    pub workspace: String,
}

/// The scratchpads whose workspace is missing, in configuration order, by name and workspace.
pub open spec fn missing_workspaces(pads: Seq<(Seq<char>, PadView)>, ws: Seq<WorkspaceView>) -> Seq<(Seq<char>, Seq<char>)> {
    pads.filter(|e: (Seq<char>, PadView)| named_position(ws, e.1.workspace) is None).map_values(
        |e: (Seq<char>, PadView)| (e.0, e.1.workspace),
    )
}

pub open spec fn missing_view(v: Seq<MissingWorkspace>) -> Seq<(Seq<char>, Seq<char>)> {
    v.map_values(|m: MissingWorkspace| (m.scratchpad@, m.workspace@))
}

pub fn plan_missing_workspaces(
    pads: &Vec<(String, ScratchpadConfig)>,
    workspaces: &Vec<WorkspaceInfo>,
) -> (r: Vec<MissingWorkspace>)
    ensures
        missing_view(r@) == missing_workspaces(pads_view(pads@), workspaces_view(workspaces@)),
{
    let ghost pv = pads_view(pads@);
    let ghost wsv = workspaces_view(workspaces@);
    let ghost mp = |e: (Seq<char>, PadView)| named_position(wsv, e.1.workspace) is None;
    let ghost mf = |e: (Seq<char>, PadView)| (e.0, e.1.workspace);
    let mut r: Vec<MissingWorkspace> = Vec::new();
    let n = pads.len();
    let mut i: usize = 0;
    while i < n
        invariant
            n == pads@.len(),
            pv == pads_view(pads@),
            wsv == workspaces_view(workspaces@),
            mp == (|e: (Seq<char>, PadView)| named_position(wsv, e.1.workspace) is None),
            mf == (|e: (Seq<char>, PadView)| (e.0, e.1.workspace)),
            i <= n,
            missing_view(r@) == pv.take(i as int).filter(mp).map_values(mf),
        decreases n - i,
    {
        assert(pv[i as int] == (pads@[i as int].0@, pads@[i as int].1@));
        proof {
            lemma_filter_take_step(pv, mp, i as int);
        }
        if find_named(workspaces, pads[i].1.workspace.as_str()).is_none() {
            let ghost old_r = missing_view(r@);
            r.push(MissingWorkspace { scratchpad: pads[i].0.clone(), workspace: pads[i].1.workspace.clone() });
            assert(missing_view(r@) =~= old_r.push(mf(pv[i as int])));
            assert(pv.take(i as int).filter(mp).push(pv[i as int]).map_values(mf) =~= pv.take(i as int).filter(mp).map_values(mf).push(mf(pv[i as int])));
        }
        i = i + 1;
    }
    assert(pv.take(n as int) =~= pv);
    r
}

} // verus!
