//! Properties of the engine and of its decisions that hold for every input.

use vstd::prelude::*;
use crate::model::{WorkspaceView, WindowView, ActionView, ReturnTargetView, RequestView, find_first};
use crate::config::{PadView, config_issue, follows_rules, lemma_rules, is_numbered_workspace};
use crate::planning::{
    ErrorView, focused_position, named_position, owner_position, show_origin, direct_origin,
    presentation, selected_windows, adopt_moves, has_windows, spawn_actions, status_outcome, status_of,
    is_considered, hiding, return_position, return_window, fresh_ids,
    with_ids, anchor_moves, initial_focus, matching_ids, pad_matches, lemma_with_ids_no_duplicates,
    patterns_compile,
    lemma_owner_position, lemma_focused_position, lemma_named_position, lemma_return_position,
};
use crate::engine::{
    EngineView, EventView, EffectView, PhaseView, OutcomeView, AnchorEffectView, AnchorJobView, AnchorEventView, AnchorStage,
    Desired, engine_next, job_next, job_finish, pad_position, still_visible, deadline_after,
    wants_show, lemma_pad_position, hide_all_target, window_ids,
};

verus! {

/// A reply ends the request: the engine is idle after it, and only after it.
pub proof fn law_reply_leaves_engine_idle(e: EngineView, ev: EventView, now: u64)
    ensures
        (engine_next(e, ev, now).1 is Reply) <==> (engine_next(e, ev, now).0.phase == PhaseView::Idle),
{
}

/// No step changes the configuration the engine decides by.
pub proof fn law_configuration_is_kept(e: EngineView, ev: EventView, now: u64)
    ensures
        engine_next(e, ev, now).0.pads == e.pads,
        engine_next(e, ev, now).0.launch_timeout_ms == e.launch_timeout_ms,
        engine_next(e, ev, now).0.background_anchor == e.background_anchor,
{
}

/// Return targets change only when a toggle, show, hide or hide-all request decides, with the
/// compositor's snapshot at hand, and every change is saved before the compositor is asked
/// for anything.
pub proof fn law_origins_change_only_on_decision(e: EngineView, ev: EventView, now: u64)
    requires
        engine_next(e, ev, now).0.origins != e.origins,
    ensures
        e.phase is TransitionWindows || e.phase is HideAllWindows,
        engine_next(e, ev, now).1 == EffectView::SaveState,
{
}

pub open spec fn has_spawn(actions: Seq<ActionView>) -> bool {
    exists|k: int| 0 <= k < actions.len() && (#[trigger] actions[k]) is Spawn
}

proof fn lemma_presentation_spawns_nothing(pad: PadView, ws: Seq<WorkspaceView>, wins: Seq<WindowView>)
    ensures
        !has_spawn(presentation(pad, ws, wins)),
{
    let scratch = named_position(ws, pad.workspace);
    let scratch_id = match scratch {
        Some(k) => Some(ws[k].id),
        None => None,
    };
    let selected = selected_windows(pad, wins, scratch_id);
    let moves = adopt_moves(pad, selected, scratch_id);
    let p = presentation(pad, ws, wins);
    assert forall|k: int| 0 <= k < p.len() implies !(#[trigger] p[k] is Spawn) by {
        if k < moves.len() {
            assert(moves[k] is MoveWindowToWorkspace);
        }
    }
}

proof fn lemma_focus_and_moves_spawn_nothing(pad: PadView, wins: Seq<WindowView>, ids: Seq<u64>, anchored: Seq<u64>)
    ensures
        !has_spawn(anchor_moves(pad, ids)),
        !has_spawn(initial_focus(pad, wins, anchored)),
{
    let m = anchor_moves(pad, ids);
    assert forall|k: int| 0 <= k < m.len() implies !(#[trigger] m[k] is Spawn) by {
        assert(m[k] is MoveWindowToWorkspace);
    }
    let f = initial_focus(pad, wins, anchored);
    assert forall|k: int| 0 <= k < f.len() implies !(#[trigger] f[k] is Spawn) by {}
}

proof fn lemma_hiding_spawns_nothing(origin: Option<ReturnTargetView>, ws: Seq<WorkspaceView>, wins: Seq<WindowView>)
    ensures
        !has_spawn(hiding(origin, ws, wins).0),
{
    let h = hiding(origin, ws, wins).0;
    assert forall|k: int| 0 <= k < h.len() implies !(#[trigger] h[k] is Spawn) by {}
}

/// Applications are launched only after a presentation found the scratchpad without windows,
/// and never while an earlier launch of the same scratchpad is still pending.
pub proof fn law_no_launch_while_pending(e: EngineView, ev: EventView, now: u64)
    requires
        engine_next(e, ev, now).1 is Perform,
        has_spawn(engine_next(e, ev, now).1->Perform_0),
    ensures
        e.phase is Presenting,
        !e.phase->Presenting_has_windows,
        !(e.pending_until.contains_key(e.phase->Presenting_name)
            && e.pending_until[e.phase->Presenting_name] > now),
{
    match (e.phase, ev) {
        (PhaseView::TransitionWindows { name, desired, workspaces }, EventView::Windows(Ok(wins))) => {
            match pad_position(e.pads, name) {
                Some(i) => lemma_presentation_spawns_nothing(e.pads[i].1, workspaces, wins),
                None => {},
            }
        },
        (PhaseView::ShowSaving { name, workspaces, windows }, EventView::Saved(Ok(()))) => {
            match pad_position(e.pads, name) {
                Some(i) => lemma_presentation_spawns_nothing(e.pads[i].1, workspaces, windows),
                None => {},
            }
        },
        (PhaseView::PollWindows { name, poll }, EventView::Windows(Ok(wins))) => {
            match pad_position(e.pads, name) {
                Some(i) => lemma_focus_and_moves_spawn_nothing(
                    e.pads[i].1,
                    wins,
                    fresh_ids(e.pads[i].1, wins, poll.before, poll.anchored),
                    poll.anchored,
                ),
                None => {},
            }
        },
        (PhaseView::Moving { name, poll, latest }, EventView::Performed(Ok(()))) => {
            match pad_position(e.pads, name) {
                Some(i) => lemma_focus_and_moves_spawn_nothing(e.pads[i].1, latest, Seq::empty(), poll.anchored),
                None => {},
            }
        },
        (PhaseView::HideSaving { name, origin, workspaces, windows }, EventView::Saved(Ok(()))) => {
            lemma_hiding_spawns_nothing(origin, workspaces, windows);
        },
        _ => {},
    }
}

/// Launching a scratchpad's applications marks its launch pending for the configured timeout.
pub proof fn law_launch_marks_pending(e: EngineView, now: u64)
    requires
        e.phase is Spawning,
        pad_position(e.pads, e.phase->Spawning_name) is Some,
    ensures
        engine_next(e, EventView::Performed(Ok(())), now).0.pending_until
            == e.pending_until.insert(e.phase->Spawning_name, deadline_after(now, e.launch_timeout_ms)),
{
}


/// A launch spawns every configured command once, in order: the `commands` when there are
/// any, else the single `command`.
pub proof fn law_launch_spawns_each_command_once(e: EngineView, name: Seq<char>, before: Seq<u64>, now: u64)
    requires
        e.phase == (PhaseView::Presenting { name, has_windows: false, before }),
        pad_position(e.pads, name) is Some,
        e.pads[pad_position(e.pads, name)->0].1.launch_if_missing,
        !(e.pending_until.contains_key(name) && e.pending_until[name] > now),
    ensures
        ({
            let pad = e.pads[pad_position(e.pads, name)->0].1;
            let commands = if pad.commands.len() == 0 {
                seq![pad.command]
            } else {
                pad.commands
            };
            let effect = engine_next(e, EventView::Performed(Ok(())), now).1;
            &&& effect is Perform
            &&& effect->Perform_0.len() == commands.len()
            &&& forall|k: int| 0 <= k < commands.len() ==>
                (#[trigger] effect->Perform_0[k]) == (ActionView::Spawn { command: commands[k] })
        }),
{
}

/// Hide-all, when a scratchpad's workspace is focused, acts exactly as hiding that scratchpad:
/// given the same snapshot it reaches the same state and asks for the same thing, and so does
/// every step after.
pub proof fn law_hide_all_is_hide_of_focused(
    e: EngineView,
    ws: Seq<WorkspaceView>,
    wins: Seq<WindowView>,
    t: u64,
    j: int,
)
    requires
        e.phase == PhaseView::Idle,
        hide_all_target(e.pads, ws) == Some(j),
        pad_position(e.pads, e.pads[j].0) == Some(j),
    ensures
        ({
            let a1 = engine_next(e, EventView::Request(RequestView::HideAll), t).0;
            let a2 = engine_next(a1, EventView::Workspaces(Ok(ws)), t).0;
            let h1 = engine_next(e, EventView::Request(RequestView::Hide { scratchpad: e.pads[j].0 }), t).0;
            let h2 = engine_next(h1, EventView::Workspaces(Ok(ws)), t).0;
            engine_next(a2, EventView::Windows(Ok(wins)), t) == engine_next(h2, EventView::Windows(Ok(wins)), t)
        }),
{
    let f = focused_position(ws)->0;
    let fname = ws[f].name->0;
    crate::model::lemma_find_first(e.pads, |p: (Seq<char>, PadView)| p.1.workspace == fname);
    assert(e.pads[j].1.workspace == fname);
}

/// Showing a scratchpad that has no window to show, from an idle engine: the compositor is
/// asked only to focus the scratchpad's workspace, then to spawn every configured command once,
/// in order; once they are spawned, the launch is pending for the configured timeout.
pub proof fn law_show_without_windows_launches(
    e: EngineView,
    name: Seq<char>,
    ws: Seq<WorkspaceView>,
    wins: Seq<WindowView>,
    t: u64,
)
    requires
        e.phase == PhaseView::Idle,
        pad_position(e.pads, name) is Some,
        patterns_compile(e.pads[pad_position(e.pads, name)->0].1),
        focused_position(ws) is Some,
        !has_windows(e.pads[pad_position(e.pads, name)->0].1, ws, wins),
        e.pads[pad_position(e.pads, name)->0].1.launch_if_missing,
        !(e.pending_until.contains_key(name) && e.pending_until[name] > t),
    ensures
        ({
            let pad = e.pads[pad_position(e.pads, name)->0].1;
            let s1 = engine_next(e, EventView::Request(RequestView::Show { scratchpad: name }), t).0;
            let s2 = engine_next(s1, EventView::Workspaces(Ok(ws)), t).0;
            let s3 = engine_next(s2, EventView::Windows(Ok(wins)), t);
            let s4 = if s3.1 == EffectView::SaveState {
                engine_next(s3.0, EventView::Saved(Ok(())), t)
            } else {
                s3
            };
            let s5 = engine_next(s4.0, EventView::Performed(Ok(())), t);
            let s6 = engine_next(s5.0, EventView::Performed(Ok(())), t);
            &&& s4.1 == EffectView::Perform(seq![ActionView::FocusWorkspaceByName { workspace: pad.workspace }])
            &&& s5.1 == EffectView::Perform(spawn_actions(pad))
            &&& s6.0.pending_until == e.pending_until.insert(name, deadline_after(t, e.launch_timeout_ms))
        }),
{
    let i = pad_position(e.pads, name)->0;
    let pad = e.pads[i].1;
    let scratch = named_position(ws, pad.workspace);
    let sid = match scratch {
        Some(k) => Some(ws[k].id),
        None => None,
    };
    let selected = selected_windows(pad, wins, sid);
    assert(selected.len() == 0);
    let mp = |w: WindowView| pad.adopt_existing && w.workspace_id != sid;
    assert(selected.filter(mp).len() == 0) by {
        selected.lemma_filter_len(mp);
    }
    assert(adopt_moves(pad, selected, sid) =~= Seq::<ActionView>::empty());
    assert(presentation(pad, ws, wins) =~= seq![ActionView::FocusWorkspaceByName { workspace: pad.workspace }]);
}

/// The invariant of a pending launch of `name` until `deadline`: it stays recorded, and the
/// engine is not about to launch `name` again.
pub open spec fn launch_pending(e: EngineView, name: Seq<char>, deadline: u64) -> bool {
    &&& e.pending_until.contains_key(name)
    &&& e.pending_until[name] == deadline
    &&& !(e.phase is Spawning && e.phase->Spawning_name == name)
}

proof fn lemma_pending_step(e: EngineView, ev: EventView, now: u64, name: Seq<char>, deadline: u64)
    requires
        launch_pending(e, name, deadline),
        now < deadline,
    ensures
        launch_pending(engine_next(e, ev, now).0, name, deadline),
{
    match (e.phase, ev) {
        (PhaseView::Spawning { name: n, before, expected }, EventView::Performed(Ok(()))) => {
            assert(n != name);
        },
        (PhaseView::Presenting { name: n, has_windows, before }, EventView::Performed(Ok(()))) => {},
        _ => {},
    }
}

/// While a launch of a scratchpad is pending, nothing launches it again. Once its
/// applications were launched at time `t`, every event that arrives before the launch timeout
/// has passed leaves the launch pending; no step spawns the scratchpad's applications; and a
/// show that finds no window answers that the launch is already pending.
pub proof fn law_no_second_launch_while_pending(
    e: EngineView,
    name: Seq<char>,
    before: Seq<u64>,
    expected: nat,
    t: u64,
    trace: Seq<(EventView, u64)>,
)
    requires
        e.phase == (PhaseView::Spawning { name, before, expected }),
        pad_position(e.pads, name) is Some,
        forall|k: int| 0 <= k < trace.len() ==> (#[trigger] trace[k]).1 < deadline_after(t, e.launch_timeout_ms),
    ensures
        ({
            let e1 = engine_next(e, EventView::Performed(Ok(())), t).0;
            let deadline = deadline_after(t, e.launch_timeout_ms);
            &&& launch_pending(run(e1, trace), name, deadline)
            &&& run(e1, trace).pads == e.pads
            &&& forall|k: int| 0 <= k < trace.len() ==> {
                let s = #[trigger] run(e1, trace.take(k));
                let step = engine_next(s, trace[k].0, trace[k].1);
                &&& launch_pending(s, name, deadline)
                &&& (step.1 is Perform && has_spawn(step.1->Perform_0) ==> s.phase->Presenting_name != name)
                &&& (s.phase matches PhaseView::Presenting { name: n, has_windows: false, .. }
                    && n == name && trace[k].0 == EventView::Performed(Ok(()))
                    && e.pads[pad_position(e.pads, name)->0].1.launch_if_missing
                    ==> step.1 == EffectView::Reply(Ok(OutcomeView::LaunchPending { name })))
            }
        }),
    decreases trace.len(),
{
    let e1 = engine_next(e, EventView::Performed(Ok(())), t).0;
    let deadline = deadline_after(t, e.launch_timeout_ms);
    assert(launch_pending(e1, name, deadline));
    if trace.len() > 0 {
        let prefix = trace.drop_last();
        let n = trace.len() - 1;
        assert forall|k: int| 0 <= k < prefix.len() implies (#[trigger] prefix[k]).1 < deadline by {
            assert(prefix[k] == trace[k]);
        }
        law_no_second_launch_while_pending(e, name, before, expected, t, prefix);
        assert(trace.drop_last() == prefix);
        assert forall|k: int| 0 <= k < trace.len() implies {
            let s = #[trigger] run(e1, trace.take(k));
            let step = engine_next(s, trace[k].0, trace[k].1);
            &&& launch_pending(s, name, deadline)
            &&& (step.1 is Perform && has_spawn(step.1->Perform_0) ==> s.phase->Presenting_name != name)
            &&& (s.phase matches PhaseView::Presenting { name: n, has_windows: false, .. }
                && n == name && trace[k].0 == EventView::Performed(Ok(()))
                && e.pads[pad_position(e.pads, name)->0].1.launch_if_missing
                ==> step.1 == EffectView::Reply(Ok(OutcomeView::LaunchPending { name })))
        } by {
            if k == n {
                assert(trace.take(k) =~= prefix);
            } else {
                assert(trace.take(k) =~= prefix.take(k));
                assert(prefix[k] == trace[k]);
            }
            let s = run(e1, trace.take(k));
            assert(launch_pending(s, name, deadline));
            let step = engine_next(s, trace[k].0, trace[k].1);
            if step.1 is Perform && has_spawn(step.1->Perform_0) {
                law_no_launch_while_pending(s, trace[k].0, trace[k].1);
            }
        }
        lemma_pending_step(run(e1, prefix), trace[n].0, trace[n].1, name, deadline);
    }
}

/// The engine after a sequence of events, each with the time it arrived at.
pub open spec fn run(e: EngineView, trace: Seq<(EventView, u64)>) -> EngineView
    decreases trace.len(),
{
    if trace.len() == 0 {
        e
    } else {
        engine_next(run(e, trace.drop_last()), trace.last().0, trace.last().1).0
    }
}

/// No event of the sequence is a new request.
pub open spec fn no_requests(trace: Seq<(EventView, u64)>) -> bool {
    forall|k: int| 0 <= k < trace.len() ==> !((#[trigger] trace[k]).0 is Request)
}

/// The phases from which a decision about return targets can be reached without a request.
pub open spec fn before_decision(p: PhaseView) -> bool {
    p is TransitionWorkspaces || p is TransitionWindows || p is HideAllWorkspaces || p is HideAllWindows
}

proof fn lemma_run_keeps_origins(e: EngineView, trace: Seq<(EventView, u64)>)
    requires
        !before_decision(e.phase),
        no_requests(trace),
    ensures
        run(e, trace).origins == e.origins,
        !before_decision(run(e, trace).phase),
        run(e, trace).pads == e.pads,
    decreases trace.len(),
{
    if trace.len() > 0 {
        let prefix = trace.drop_last();
        assert forall|k: int| 0 <= k < prefix.len() implies !((#[trigger] prefix[k]).0 is Request) by {
            assert(prefix[k] == trace[k]);
        }
        lemma_run_keeps_origins(e, prefix);
        assert(!(trace[trace.len() - 1].0 is Request));
    }
}

/// The focused workspace of a snapshot.
pub open spec fn focused_of(ws: Seq<WorkspaceView>) -> WorkspaceView {
    ws[focused_position(ws)->0]
}

/// The window that was focused on `f` when it was left, if it is still on `f`.
pub open spec fn window_to_restore(f: WorkspaceView, wins: Seq<WindowView>) -> Seq<ActionView> {
    match f.active_window_id {
        Some(wid) => if exists|j: int| 0 <= j < wins.len() && (#[trigger] wins[j]).id == wid && wins[j].workspace_id == Some(f.id) {
            seq![ActionView::FocusWindow { id: wid }]
        } else {
            Seq::empty()
        },
        None => Seq::empty(),
    }
}

/// Press the binding once and the scratchpad's return target is the workspace and window you
/// were on; the show request then runs to its end, whatever the compositor answers; press the
/// binding again on the scratchpad and you are taken back to that workspace and that window,
/// if the window is still there, and the return target is forgotten.
pub proof fn law_toggle_returns_to_origin(
    e: EngineView,
    name: Seq<char>,
    ws: Seq<WorkspaceView>,
    wins: Seq<WindowView>,
    t: u64,
    trace: Seq<(EventView, u64)>,
    ws2: Seq<WorkspaceView>,
    wins2: Seq<WindowView>,
    t2: u64,
)
    requires
        e.phase == PhaseView::Idle,
        pad_position(e.pads, name) is Some,
        focused_position(ws) is Some,
        owner_position(e.pads, focused_of(ws)) is None,
        no_requests(trace),
        focused_position(ws2) is Some,
        focused_of(ws2).name == Some(e.pads[pad_position(e.pads, name)->0].1.workspace),
        exists|k: int| 0 <= k < ws2.len() && (#[trigger] ws2[k]).id == focused_of(ws).id,
    ensures
        ({
            let f = focused_of(ws);
            let s1 = engine_next(e, EventView::Request(RequestView::Toggle { scratchpad: name }), t).0;
            let s2 = engine_next(s1, EventView::Workspaces(Ok(ws)), t).0;
            let s3 = engine_next(s2, EventView::Windows(Ok(wins)), t);
            let m = run(s3.0, trace);
            let h1 = engine_next(m, EventView::Request(RequestView::Toggle { scratchpad: name }), t2).0;
            let h2 = engine_next(h1, EventView::Workspaces(Ok(ws2)), t2).0;
            let h3 = engine_next(h2, EventView::Windows(Ok(wins2)), t2);
            let h4 = engine_next(h3.0, EventView::Saved(Ok(())), t2);
            &&& s3.1 == EffectView::SaveState
            &&& s3.0.origins == e.origins.insert(name, direct_origin(f))
            &&& m.origins == s3.0.origins
            &&& (m.phase == PhaseView::Idle ==> {
                &&& h3.1 == EffectView::SaveState
                &&& h3.0.origins == e.origins.remove(name)
                &&& h4.1 == EffectView::Perform(
                    seq![ActionView::FocusWorkspaceById { id: f.id }] + window_to_restore(f, wins2),
                )
            })
        }),
{
    let i = pad_position(e.pads, name)->0;
    let pad = e.pads[i].1;
    let fi = focused_position(ws)->0;
    let f = ws[fi];
    lemma_focused_position(ws);
    lemma_owner_position(e.pads, f);
    lemma_pad_position(e.pads, name);
    assert(f.name != Some(pad.workspace)) by {
        assert(f.name != Some(e.pads[i].1.workspace));
    }
    let s1 = engine_next(e, EventView::Request(RequestView::Toggle { scratchpad: name }), t).0;
    assert(s1.phase == PhaseView::TransitionWorkspaces { name, desired: Desired::Toggle });
    let s2 = engine_next(s1, EventView::Workspaces(Ok(ws)), t).0;
    assert(s2.phase == PhaseView::TransitionWindows { name, desired: Desired::Toggle, workspaces: ws });
    let s3 = engine_next(s2, EventView::Windows(Ok(wins)), t);
    assert(show_origin(e.pads, e.origins, f, pad.workspace) == direct_origin(f));
    assert(s3.0.origins == e.origins.insert(name, direct_origin(f)));
    assert(s3.0.phase is ShowSaving);
    lemma_run_keeps_origins(s3.0, trace);
    let m = run(s3.0, trace);
    if m.phase == PhaseView::Idle {
        let h1 = engine_next(m, EventView::Request(RequestView::Toggle { scratchpad: name }), t2).0;
        assert(h1.phase == PhaseView::TransitionWorkspaces { name, desired: Desired::Toggle });
        let h2 = engine_next(h1, EventView::Workspaces(Ok(ws2)), t2).0;
        let h3 = engine_next(h2, EventView::Windows(Ok(wins2)), t2);
        let o = direct_origin(f);
        assert(m.origins.contains_key(name) && m.origins[name] == o);
        assert(h3.0.origins =~= e.origins.remove(name));
        assert(h3.0.phase == PhaseView::HideSaving { name, origin: Some(o), workspaces: ws2, windows: wins2 });
        lemma_return_position(o, ws2);
        let k = return_position(o, ws2)->0;
        assert(ws2[k].id == f.id);
        let h4 = engine_next(h3.0, EventView::Saved(Ok(())), t2);
        assert(return_window(o, ws2[k].id, wins2) is Some ==> window_to_restore(f, wins2) == seq![ActionView::FocusWindow { id: return_window(o, ws2[k].id, wins2)->0 }]);
        assert(hiding(Some(o), ws2, wins2).0 == seq![ActionView::FocusWorkspaceById { id: f.id }] + window_to_restore(f, wins2));
    }
}


/// Opening one scratchpad from another keeps the first one's return target: hiding the
/// second returns to the last normal workspace, not to the first scratchpad.
pub proof fn law_show_from_scratchpad_keeps_normal_origin(
    e: EngineView,
    name: Seq<char>,
    desired: Desired,
    ws: Seq<WorkspaceView>,
    wins: Seq<WindowView>,
    t: u64,
)
    requires
        e.phase == (PhaseView::TransitionWindows { name, desired, workspaces: ws }),
        pad_position(e.pads, name) is Some,
        focused_position(ws) is Some,
        focused_of(ws).name != Some(e.pads[pad_position(e.pads, name)->0].1.workspace),
        wants_show(desired, false),
        owner_position(e.pads, focused_of(ws)) is Some,
        e.origins.contains_key(e.pads[owner_position(e.pads, focused_of(ws))->0].0),
        e.origins[e.pads[owner_position(e.pads, focused_of(ws))->0].0].workspace_name
            != Some(e.pads[pad_position(e.pads, name)->0].1.workspace),
    ensures
        engine_next(e, EventView::Windows(Ok(wins)), t).0.origins
            == e.origins.insert(name, e.origins[e.pads[owner_position(e.pads, focused_of(ws))->0].0]),
        engine_next(e, EventView::Windows(Ok(wins)), t).1 == EffectView::SaveState,
{
    lemma_owner_position(e.pads, focused_of(ws));
}

/// Opening a scratchpad from another whose return target is the first one's own workspace
/// records the workspace it was opened from instead, so that hiding never returns to the
/// scratchpad itself.
pub proof fn law_show_never_copies_own_workspace(
    e: EngineView,
    name: Seq<char>,
    desired: Desired,
    ws: Seq<WorkspaceView>,
    wins: Seq<WindowView>,
    t: u64,
)
    requires
        e.phase == (PhaseView::TransitionWindows { name, desired, workspaces: ws }),
        pad_position(e.pads, name) is Some,
        focused_position(ws) is Some,
        focused_of(ws).name != Some(e.pads[pad_position(e.pads, name)->0].1.workspace),
        wants_show(desired, false),
        owner_position(e.pads, focused_of(ws)) is Some,
        e.origins.contains_key(e.pads[owner_position(e.pads, focused_of(ws))->0].0),
        e.origins[e.pads[owner_position(e.pads, focused_of(ws))->0].0].workspace_name
            == Some(e.pads[pad_position(e.pads, name)->0].1.workspace),
    ensures
        engine_next(e, EventView::Windows(Ok(wins)), t).0.origins
            == e.origins.insert(name, direct_origin(focused_of(ws))),
{
}

/// No scratchpad's return target names the scratchpad's own workspace.
pub open spec fn targets_elsewhere(e: EngineView) -> bool {
    forall|n: Seq<char>|
        #![trigger e.origins.contains_key(n), pad_position(e.pads, n)]
        e.origins.contains_key(n) && pad_position(e.pads, n) is Some ==> e.origins[n].workspace_name
            != Some(e.pads[pad_position(e.pads, n)->0].1.workspace)
}

proof fn lemma_step_targets_elsewhere(e: EngineView, ev: EventView, now: u64)
    requires
        targets_elsewhere(e),
    ensures
        targets_elsewhere(engine_next(e, ev, now).0),
{
    let e2 = engine_next(e, ev, now).0;
    assert(e2.pads == e.pads);
    if e2.origins != e.origins {
        match (e.phase, ev) {
            (PhaseView::TransitionWindows { name, desired, workspaces }, EventView::Windows(Ok(wins))) => {
                if pad_position(e.pads, name) is Some && focused_position(workspaces) is Some {
                    let i = pad_position(e.pads, name)->0;
                    let f = focused_position(workspaces)->0;
                    let own = e.pads[i].1.workspace;
                    let visible = workspaces[f].name == Some(own);
                    if wants_show(desired, visible) && !visible {
                        let o = show_origin(e.pads, e.origins, workspaces[f], own);
                        match owner_position(e.pads, workspaces[f]) {
                            Some(j) => {
                                if e.origins.contains_key(e.pads[j].0)
                                    && e.origins[e.pads[j].0].workspace_name != Some(own) {
                                    assert(o == e.origins[e.pads[j].0]);
                                } else {
                                    assert(o == direct_origin(workspaces[f]));
                                }
                            },
                            None => {
                                assert(o == direct_origin(workspaces[f]));
                            },
                        }
                        assert(o.workspace_name != Some(own));
                        assert(e2.origins == e.origins.insert(name, o));
                        assert forall|n: Seq<char>|
                            #![trigger e2.origins.contains_key(n), pad_position(e2.pads, n)]
                            e2.origins.contains_key(n) && pad_position(e2.pads, n) is Some implies e2.origins[n].workspace_name
                                != Some(e2.pads[pad_position(e2.pads, n)->0].1.workspace) by {
                            if n != name {
                                assert(e.origins.contains_key(n));
                            }
                        }
                    } else {
                        assert forall|n: Seq<char>|
                            #![trigger e2.origins.contains_key(n), pad_position(e2.pads, n)]
                            e2.origins.contains_key(n) && pad_position(e2.pads, n) is Some implies e2.origins[n].workspace_name
                                != Some(e2.pads[pad_position(e2.pads, n)->0].1.workspace) by {
                            assert(e.origins.contains_key(n));
                        }
                    }
                }
            },
            (PhaseView::HideAllWindows { name, workspaces }, EventView::Windows(Ok(wins))) => {
                assert forall|n: Seq<char>|
                    #![trigger e2.origins.contains_key(n), pad_position(e2.pads, n)]
                    e2.origins.contains_key(n) && pad_position(e2.pads, n) is Some implies e2.origins[n].workspace_name
                        != Some(e2.pads[pad_position(e2.pads, n)->0].1.workspace) by {
                    assert(e.origins.contains_key(n));
                }
            },
            _ => {},
        }
    }
}

/// Whatever requests and answers come, starting without return targets, no scratchpad ever
/// has a return target that names its own workspace: hiding a scratchpad never returns to it.
pub proof fn law_return_target_is_never_own_workspace(e: EngineView, trace: Seq<(EventView, u64)>)
    requires
        e.origins == Map::<Seq<char>, ReturnTargetView>::empty(),
    ensures
        targets_elsewhere(run(e, trace)),
    decreases trace.len(),
{
    if trace.len() > 0 {
        law_return_target_is_never_own_workspace(e, trace.drop_last());
        lemma_step_targets_elsewhere(run(e, trace.drop_last()), trace.last().0, trace.last().1);
    }
}

/// Showing a scratchpad that is already focused keeps its return target, so that a repeated
/// show never makes it return to itself.
pub proof fn law_repeated_show_keeps_origin(
    e: EngineView,
    name: Seq<char>,
    ws: Seq<WorkspaceView>,
    wins: Seq<WindowView>,
    t: u64,
)
    requires
        e.phase == (PhaseView::TransitionWindows { name, desired: Desired::Show, workspaces: ws }),
        pad_position(e.pads, name) is Some,
        focused_position(ws) is Some,
        focused_of(ws).name == Some(e.pads[pad_position(e.pads, name)->0].1.workspace),
    ensures
        engine_next(e, EventView::Windows(Ok(wins)), t).0.origins == e.origins,
{
}

/// The workspace id of a scratchpad in a snapshot, if it has a workspace there.
pub open spec fn scratch_id(pad: PadView, ws: Seq<WorkspaceView>) -> Option<u64> {
    match named_position(ws, pad.workspace) {
        Some(k) => Some(ws[k].id),
        None => None,
    }
}

/// A scratchpad that does not adopt windows never moves a window when it is shown.
pub proof fn law_non_adopting_moves_nothing(pad: PadView, ws: Seq<WorkspaceView>, wins: Seq<WindowView>)
    requires
        !pad.adopt_existing,
    ensures
        forall|k: int| 0 <= k < presentation(pad, ws, wins).len() ==> !((#[trigger] presentation(pad, ws, wins)[k]) is MoveWindowToWorkspace),
{
    let sid = scratch_id(pad, ws);
    let selected = selected_windows(pad, wins, sid);
    let mp = |w: WindowView| pad.adopt_existing && w.workspace_id != sid;
    let filtered = selected.filter(mp);
    assert(filtered.len() == 0) by {
        if filtered.len() > 0 {
            selected.lemma_filter_pred(mp, 0);
        }
    }
    assert(adopt_moves(pad, selected, sid).len() == 0);
}

/// A scratchpad that adopts windows moves every window that belongs to it and is elsewhere
/// onto its workspace when it is shown.
pub proof fn law_adopting_moves_its_windows(pad: PadView, ws: Seq<WorkspaceView>, wins: Seq<WindowView>, j: int)
    requires
        pad.adopt_existing,
        0 <= j < wins.len(),
        pad_matches(pad, wins[j]),
        wins[j].workspace_id != scratch_id(pad, ws),
    ensures
        presentation(pad, ws, wins).contains(
            ActionView::MoveWindowToWorkspace { window_id: wins[j].id, workspace: pad.workspace },
        ),
{
    let sid = scratch_id(pad, ws);
    let sp = |w: WindowView| pad_matches(pad, w) && (w.workspace_id == sid || pad.adopt_existing);
    let mp = |w: WindowView| pad.adopt_existing && w.workspace_id != sid;
    let mf = |w: WindowView| ActionView::MoveWindowToWorkspace { window_id: w.id, workspace: pad.workspace };
    let selected = wins.filter(sp);
    wins.lemma_filter_contains(sp, j);
    let k = choose|k: int| 0 <= k < selected.len() && selected[k] == wins[j];
    selected.lemma_filter_contains(mp, k);
    let moved = selected.filter(mp);
    let q = choose|q: int| 0 <= q < moved.len() && moved[q] == wins[j];
    let moves = moved.map_values(mf);
    assert(moves[q] == mf(wins[j]));
    assert(adopt_moves(pad, selected, sid) == moves);
    let p = presentation(pad, ws, wins);
    assert(p[q] == moves[q]);
}

/// Every window the daemon moves goes to the scratchpad's own workspace: the adopting moves of
/// a presentation, which all come before it focuses the scratchpad, and the moves of anchoring
/// alike. With a configuration that follows the rules, that workspace is none of the normal
/// workspaces `1` to `6`.
pub proof fn law_moves_go_to_the_scratchpad(
    pads: Seq<(Seq<char>, PadView)>,
    i: int,
    ws: Seq<WorkspaceView>,
    wins: Seq<WindowView>,
    ids: Seq<u64>,
)
    requires
        0 <= i < pads.len(),
    ensures
        ({
            let pad = pads[i].1;
            let p = presentation(pad, ws, wins);
            let sid = scratch_id(pad, ws);
            let moves = adopt_moves(pad, selected_windows(pad, wins, sid), sid);
            &&& p.subrange(0, moves.len() as int) == moves
            &&& p[moves.len() as int] == (ActionView::FocusWorkspaceByName { workspace: pad.workspace })
            &&& forall|k: int| 0 <= k < p.len() && (#[trigger] p[k]) is MoveWindowToWorkspace ==> {
                &&& k < moves.len()
                &&& p[k]->MoveWindowToWorkspace_workspace == pad.workspace
            }
            &&& forall|k: int| 0 <= k < anchor_moves(pad, ids).len() ==>
                (#[trigger] anchor_moves(pad, ids)[k])->MoveWindowToWorkspace_workspace == pad.workspace
            &&& follows_rules(pads) ==> !is_numbered_workspace(pad.workspace)
        }),
{
    let pad = pads[i].1;
    let p = presentation(pad, ws, wins);
    let sid = scratch_id(pad, ws);
    let moves = adopt_moves(pad, selected_windows(pad, wins, sid), sid);
    assert(p.subrange(0, moves.len() as int) =~= moves);
    assert forall|k: int| 0 <= k < p.len() && (#[trigger] p[k]) is MoveWindowToWorkspace implies {
        &&& k < moves.len()
        &&& p[k]->MoveWindowToWorkspace_workspace == pad.workspace
    } by {
        if k < moves.len() {
            assert(p[k] == moves[k]);
        }
    }
    if follows_rules(pads) {
        assert(crate::config::pad_follows_rules(pads[i].0, pads[i].1));
    }
}

/// A background anchoring job that finds the scratchpad no longer focused finishes without
/// touching the focus: leaving a scratchpad during a slow launch never brings you back to it.
pub proof fn law_background_anchor_never_steals_focus(j: AnchorJobView, ws: Seq<WorkspaceView>, now: u64)
    requires
        j.stage == AnchorStage::AwaitingWorkspaces,
        !still_visible(j.pad, ws),
    ensures
        job_next(j, AnchorEventView::Workspaces(Ok(ws)), now) == job_finish(j, Ok(())),
{
}

/// Some action of the batch focuses a window.
pub open spec fn has_focus(actions: Seq<ActionView>) -> bool {
    exists|k: int| 0 <= k < actions.len() && (#[trigger] actions[k]) is FocusWindow
}

/// A job that is past its looking stages has anchored a window for every launched application.
pub open spec fn job_consistent(j: AnchorJobView) -> bool {
    (j.stage == AnchorStage::AwaitingWorkspaces || j.stage == AnchorStage::Focusing) ==> j.anchored.len() >= j.expected
}

proof fn lemma_moves_focus_nothing(pad: PadView, ids: Seq<u64>)
    ensures
        !has_focus(anchor_moves(pad, ids)),
{
    let m = anchor_moves(pad, ids);
    assert forall|k: int| 0 <= k < m.len() implies !(#[trigger] m[k] is FocusWindow) by {
        assert(m[k] is MoveWindowToWorkspace);
    }
}

/// Every step of an anchoring job keeps it consistent; a new job, not started, is.
pub proof fn law_anchor_job_stays_consistent(j: AnchorJobView, ev: AnchorEventView, now: u64)
    requires
        job_consistent(j),
    ensures
        job_consistent(job_next(j, ev, now).0),
{
}

/// The background job applies the initial focus only once every launched application has a
/// window anchored, and only while the scratchpad is the focused workspace.
pub proof fn law_anchor_focus_waits_for_every_window(j: AnchorJobView, ev: AnchorEventView, now: u64)
    requires
        job_consistent(j),
        job_next(j, ev, now).1 is Perform,
        has_focus(job_next(j, ev, now).1->Perform_0),
    ensures
        j.anchored.len() >= j.expected,
        ev matches AnchorEventView::Workspaces(Ok(ws)) && still_visible(j.pad, ws),
{
    match (j.stage, ev) {
        (AnchorStage::AwaitingWindows, AnchorEventView::Windows(Ok(wins))) => {
            lemma_moves_focus_nothing(j.pad, fresh_ids(j.pad, wins, j.before, j.anchored));
        },
        _ => {},
    }
}

/// While the daemon itself looks for launched windows, it applies the initial focus only once
/// every launched application has a window anchored.
pub proof fn law_launch_focus_waits_for_every_window(e: EngineView, ev: EventView, now: u64)
    requires
        e.phase is Moving || e.phase is PollWindows,
        engine_next(e, ev, now).1 is Perform,
        has_focus(engine_next(e, ev, now).1->Perform_0),
    ensures
        e.phase is Moving,
        e.phase->Moving_poll.anchored.len() >= e.phase->Moving_poll.expected,
{
    match (e.phase, ev) {
        (PhaseView::PollWindows { name, poll }, EventView::Windows(Ok(wins))) => {
            match pad_position(e.pads, name) {
                Some(i) => lemma_moves_focus_nothing(
                    e.pads[i].1,
                    fresh_ids(e.pads[i].1, wins, poll.before, poll.anchored),
                ),
                None => {},
            }
        },
        _ => {},
    }
}

proof fn lemma_filter_map_no_duplicates<A, B>(s: Seq<A>, p: spec_fn(A) -> bool, f: spec_fn(A) -> B)
    requires
        s.map_values(f).no_duplicates(),
    ensures
        s.filter(p).map_values(f).no_duplicates(),
    decreases s.len(),
{
    if s.len() > 0 {
        let s0 = s.drop_last();
        let x = s.last();
        let n = s0.len() as int;
        assert(s =~= s0.push(x));
        assert forall|i: int, k: int| 0 <= i < s0.len() && 0 <= k < s0.len() && i != k implies
            s0.map_values(f)[i] != s0.map_values(f)[k] by {
            assert(s0.map_values(f)[i] == s.map_values(f)[i] && s0.map_values(f)[k] == s.map_values(f)[k]);
        }
        assert(s0.map_values(f).no_duplicates());
        lemma_filter_map_no_duplicates(s0, p, f);
        crate::model::lemma_filter_push(s0, x, p);
        if p(x) {
            let fs = s0.filter(p);
            assert(s.filter(p).map_values(f) =~= fs.map_values(f).push(f(x)));
            assert forall|i: int| 0 <= i < fs.len() implies fs.map_values(f)[i] != f(x) by {
                assert(fs.contains(fs[i]));
                s0.lemma_filter_contains_rev(p, fs[i]);
                let w = choose|w: int| 0 <= w < s0.len() && s0[w] == fs[i];
                assert(s.map_values(f)[w] == f(fs[i]));
                assert(s.map_values(f)[n] == f(x));
            }
            let m = fs.map_values(f);
            let r = m.push(f(x));
            assert forall|i: int, k: int| 0 <= i < r.len() && 0 <= k < r.len() && i != k implies r[i] != r[k] by {
                if i < m.len() && k < m.len() {
                    assert(r[i] == m[i] && r[k] == m[k]);
                } else if i < m.len() {
                    assert(r[i] == m[i]);
                } else {
                    assert(r[k] == m[k]);
                }
            }
        }
    }
}

/// The ids of the windows of a snapshot that the anchoring job is handed are distinct.
pub open spec fn snapshot_ids_distinct(ev: AnchorEventView) -> bool {
    ev matches AnchorEventView::Windows(Ok(wins)) ==> window_ids(wins).no_duplicates()
}

/// The anchoring job after a sequence of events, each with the time it arrived at.
pub open spec fn job_run(j: AnchorJobView, trace: Seq<(AnchorEventView, u64)>) -> AnchorJobView
    decreases trace.len(),
{
    if trace.len() == 0 {
        j
    } else {
        job_next(job_run(j, trace.drop_last()), trace.last().0, trace.last().1).0
    }
}

/// The job before its `k`-th event.
pub open spec fn job_before(j: AnchorJobView, trace: Seq<(AnchorEventView, u64)>, k: int) -> AnchorJobView {
    job_run(j, trace.take(k))
}

/// What the job asks for after its `k`-th event.
pub open spec fn job_effect(j: AnchorJobView, trace: Seq<(AnchorEventView, u64)>, k: int) -> AnchorEffectView {
    job_next(job_before(j, trace, k), trace[k].0, trace[k].1).1
}

/// The window that the `q`-th action of a batch moves, if it moves one.
pub open spec fn moved_window(eff: AnchorEffectView, q: int) -> Option<u64> {
    match eff {
        AnchorEffectView::Perform(a) => if 0 <= q < a.len() {
            match a[q] {
                ActionView::MoveWindowToWorkspace { window_id, .. } => Some(window_id),
                _ => None,
            }
        } else {
            None
        },
        _ => None,
    }
}

/// The workspace that the `q`-th action of a batch moves a window to, if it moves one.
pub open spec fn moved_to(eff: AnchorEffectView, q: int) -> Option<Seq<char>> {
    match eff {
        AnchorEffectView::Perform(a) => if 0 <= q < a.len() {
            match a[q] {
                ActionView::MoveWindowToWorkspace { workspace, .. } => Some(workspace),
                _ => None,
            }
        } else {
            None
        },
        _ => None,
    }
}

/// The job has asked for the workspaces: it has stopped looking at windows.
pub open spec fn settled(s: AnchorJobView) -> bool {
    s.stage == AnchorStage::AwaitingWorkspaces || s.stage == AnchorStage::Focusing
        || s.stage == AnchorStage::Finished
}

/// What a job started as `j0` keeps true at every step.
pub open spec fn job_sound(j0: AnchorJobView, s: AnchorJobView) -> bool {
    &&& s.pad == j0.pad
    &&& s.before == j0.before
    &&& s.expected == j0.expected
    &&& job_consistent(s)
    &&& s.anchored.no_duplicates()
    &&& forall|x: u64| #[trigger] s.anchored.contains(x) ==> !s.before.contains(x)
}

/// What one step of a job does with windows and focus.
pub open spec fn step_facts(s: AnchorJobView, ev: AnchorEventView, now: u64) -> bool {
    let (s2, eff) = job_next(s, ev, now);
    &&& forall|x: u64| #[trigger] s.anchored.contains(x) ==> s2.anchored.contains(x)
    &&& forall|q: int| #[trigger] moved_window(eff, q) is Some ==> {
        let id = moved_window(eff, q)->0;
        &&& moved_to(eff, q) == Some(s.pad.workspace)
        &&& !s.before.contains(id)
        &&& !s.anchored.contains(id)
        &&& s2.anchored.contains(id)
        &&& ev matches AnchorEventView::Windows(Ok(wins))
            && exists|w: int| 0 <= w < wins.len() && wins[w].id == id && pad_matches(s.pad, wins[w])
    }
    &&& forall|q1: int, q2: int| q1 != q2 && #[trigger] moved_window(eff, q1) is Some && #[trigger] moved_window(eff, q2) is Some
        ==> moved_window(eff, q1) != moved_window(eff, q2)
    &&& settled(s) ==> settled(s2) && !(eff is QueryWindows) && forall|q: int| !(#[trigger] moved_window(eff, q) is Some)
    &&& eff is QueryWorkspaces ==> s2.stage == AnchorStage::AwaitingWorkspaces
    &&& (eff is Perform && has_focus(eff->Perform_0)) ==> {
        &&& s.anchored.len() >= s.expected
        &&& ev matches AnchorEventView::Workspaces(Ok(ws)) && still_visible(s.pad, ws)
        &&& eff->Perform_0 == initial_focus(s.pad, s.latest, s.anchored)
    }
}

proof fn lemma_job_step(j0: AnchorJobView, s: AnchorJobView, ev: AnchorEventView, now: u64)
    requires
        job_sound(j0, s),
        snapshot_ids_distinct(ev),
    ensures
        job_sound(j0, job_next(s, ev, now).0),
        step_facts(s, ev, now),
{
    let (s2, eff) = job_next(s, ev, now);
    law_anchor_job_stays_consistent(s, ev, now);
    match (s.stage, ev) {
        (AnchorStage::AwaitingWindows, AnchorEventView::Windows(Ok(wins))) => {
            if patterns_compile(s.pad) {
                let fresh = fresh_ids(s.pad, wins, s.before, s.anchored);
                law_anchoring_moves_only_new_windows(s.pad, wins, s.before, s.anchored);
                let mp = |w: WindowView| pad_matches(s.pad, w);
                let idf = |w: WindowView| w.id;
                assert(window_ids(wins) == wins.map_values(idf));
                lemma_filter_map_no_duplicates(wins, mp, idf);
                let ids = wins.filter(mp).map_values(idf);
                let fp = |id: u64| !s.before.contains(id) && !s.anchored.contains(id);
                let same = |id: u64| id;
                assert(ids.map_values(same) =~= ids);
                lemma_filter_map_no_duplicates(ids, fp, same);
                assert(ids.filter(fp).map_values(same) =~= ids.filter(fp));
                assert(fresh == ids.filter(fp));
                let moves = anchor_moves(s.pad, fresh);
                assert forall|q: int| #[trigger] moved_window(eff, q) is Some implies {
                    let id = moved_window(eff, q)->0;
                    &&& moved_to(eff, q) == Some(s.pad.workspace)
                    &&& !s.before.contains(id)
                    &&& !s.anchored.contains(id)
                    &&& s2.anchored.contains(id)
                    &&& ev matches AnchorEventView::Windows(Ok(wins))
                        && exists|w: int| 0 <= w < wins.len() && wins[w].id == id && pad_matches(s.pad, wins[w])
                } by {
                    assert(moves[q] == (ActionView::MoveWindowToWorkspace { window_id: fresh[q], workspace: s.pad.workspace }));
                    assert(fresh.contains(fresh[q]));
                }
                assert forall|q1: int, q2: int| q1 != q2 && #[trigger] moved_window(eff, q1) is Some && #[trigger] moved_window(eff, q2) is Some
                    implies moved_window(eff, q1) != moved_window(eff, q2) by {
                    assert(moves[q1] == (ActionView::MoveWindowToWorkspace { window_id: fresh[q1], workspace: s.pad.workspace }));
                    assert(moves[q2] == (ActionView::MoveWindowToWorkspace { window_id: fresh[q2], workspace: s.pad.workspace }));
                }
                assert forall|x: u64| #[trigger] s2.anchored.contains(x) implies !s2.before.contains(x) by {
                    if fresh.contains(x) {
                        let q = choose|q: int| 0 <= q < fresh.len() && fresh[q] == x;
                        assert(!s.before.contains(fresh[q]));
                    }
                }
            }
        },
        (AnchorStage::AwaitingWorkspaces, AnchorEventView::Workspaces(Ok(ws))) => {
            let f = initial_focus(s.pad, s.latest, s.anchored);
            assert forall|q: int| !(#[trigger] moved_window(eff, q) is Some) by {
                if 0 <= q < f.len() {
                    assert(!(f[q] is MoveWindowToWorkspace));
                }
            }
            if eff is Perform && has_focus(eff->Perform_0) {
                law_anchor_focus_waits_for_every_window(s, ev, now);
            }
        },
        _ => {
            if eff is Perform && has_focus(eff->Perform_0) {
                law_anchor_focus_waits_for_every_window(s, ev, now);
            }
        },
    }
}

proof fn lemma_job_before_step(j: AnchorJobView, trace: Seq<(AnchorEventView, u64)>, k: int)
    requires
        0 <= k < trace.len(),
    ensures
        job_before(j, trace, k + 1) == job_next(job_before(j, trace, k), trace[k].0, trace[k].1).0,
{
    assert(trace.take(k + 1).drop_last() =~= trace.take(k));
    assert(trace.take(k + 1).last() == trace[k]);
}

proof fn lemma_job_run_sound(j: AnchorJobView, trace: Seq<(AnchorEventView, u64)>, k: int)
    requires
        job_sound(j, j),
        0 <= k <= trace.len(),
        forall|i: int| 0 <= i < trace.len() ==> snapshot_ids_distinct(#[trigger] trace[i].0),
    ensures
        job_sound(j, job_before(j, trace, k)),
    decreases k,
{
    if k > 0 {
        lemma_job_run_sound(j, trace, k - 1);
        lemma_job_before_step(j, trace, k - 1);
        lemma_job_step(j, job_before(j, trace, k - 1), trace[k - 1].0, trace[k - 1].1);
    } else {
        assert(trace.take(0) =~= Seq::<(AnchorEventView, u64)>::empty());
    }
}

proof fn lemma_job_run_grows(j: AnchorJobView, trace: Seq<(AnchorEventView, u64)>, k1: int, k2: int)
    requires
        job_sound(j, j),
        0 <= k1 <= k2 <= trace.len(),
        forall|i: int| 0 <= i < trace.len() ==> snapshot_ids_distinct(#[trigger] trace[i].0),
    ensures
        forall|x: u64| #[trigger] job_before(j, trace, k1).anchored.contains(x) ==> job_before(j, trace, k2).anchored.contains(x),
        settled(job_before(j, trace, k1)) ==> settled(job_before(j, trace, k2)),
    decreases k2 - k1,
{
    if k1 < k2 {
        lemma_job_run_grows(j, trace, k1, k2 - 1);
        lemma_job_run_sound(j, trace, k2 - 1);
        lemma_job_before_step(j, trace, k2 - 1);
        lemma_job_step(j, job_before(j, trace, k2 - 1), trace[k2 - 1].0, trace[k2 - 1].1);
    }
}

/// Over a whole background anchoring run, whatever the compositor reports (each snapshot
/// naming every window once): every move puts a window that belongs to the scratchpad, appeared
/// in the snapshot of that step and did not exist before the launch onto the scratchpad's
/// workspace; no window is moved twice; once the job asks for the workspaces, which it does only
/// when a window is anchored for every launched application, it never looks at the windows or
/// moves one again; and it focuses a window only then, only while the scratchpad is the focused
/// workspace, and exactly as the initial focus says of the windows the job saw last.
pub proof fn law_anchoring_run(j: AnchorJobView, trace: Seq<(AnchorEventView, u64)>)
    requires
        j.stage == AnchorStage::NotStarted,
        j.anchored.len() == 0,
        forall|i: int| 0 <= i < trace.len() ==> snapshot_ids_distinct(#[trigger] trace[i].0),
    ensures
        forall|k: int, q: int| 0 <= k < trace.len() && #[trigger] moved_window(job_effect(j, trace, k), q) is Some
            ==> {
            let id = moved_window(job_effect(j, trace, k), q)->0;
            &&& moved_to(job_effect(j, trace, k), q) == Some(j.pad.workspace)
            &&& !j.before.contains(id)
            &&& trace[k].0 matches AnchorEventView::Windows(Ok(wins))
                && exists|w: int| 0 <= w < wins.len() && wins[w].id == id && pad_matches(j.pad, wins[w])
        },
        forall|k1: int, q1: int, k2: int, q2: int|
            0 <= k1 < trace.len() && 0 <= k2 < trace.len() && (k1, q1) != (k2, q2)
            && #[trigger] moved_window(job_effect(j, trace, k1), q1) is Some && #[trigger] moved_window(job_effect(j, trace, k2), q2) is Some
            ==> moved_window(job_effect(j, trace, k1), q1) != moved_window(job_effect(j, trace, k2), q2),
        forall|k: int| 0 <= k < trace.len() && #[trigger] job_effect(j, trace, k) is QueryWorkspaces
            ==> job_before(j, trace, k + 1).anchored.len() >= j.expected,
        forall|k1: int, k2: int| 0 <= k1 < k2 < trace.len() && #[trigger] job_effect(j, trace, k1) is QueryWorkspaces
            ==> !(#[trigger] job_effect(j, trace, k2) is QueryWindows)
                && forall|q: int| !(#[trigger] moved_window(job_effect(j, trace, k2), q) is Some),
        forall|k: int| 0 <= k < trace.len() && #[trigger] job_effect(j, trace, k) is Perform
            && has_focus(job_effect(j, trace, k)->Perform_0) ==> {
            let s = job_before(j, trace, k);
            &&& s.anchored.len() >= j.expected
            &&& trace[k].0 matches AnchorEventView::Workspaces(Ok(ws)) && still_visible(j.pad, ws)
            &&& job_effect(j, trace, k)->Perform_0 == initial_focus(j.pad, s.latest, s.anchored)
        },
{
    assert(job_sound(j, j));
    assert forall|k: int| 0 <= k < trace.len() implies #[trigger] step_facts(job_before(j, trace, k), trace[k].0, trace[k].1)
        && job_sound(j, job_before(j, trace, k)) by {
        lemma_job_run_sound(j, trace, k);
        lemma_job_step(j, job_before(j, trace, k), trace[k].0, trace[k].1);
    }
    assert forall|k: int, q: int| 0 <= k < trace.len() && #[trigger] moved_window(job_effect(j, trace, k), q) is Some
        implies {
        let id = moved_window(job_effect(j, trace, k), q)->0;
        &&& moved_to(job_effect(j, trace, k), q) == Some(j.pad.workspace)
        &&& !j.before.contains(id)
        &&& trace[k].0 matches AnchorEventView::Windows(Ok(wins))
            && exists|w: int| 0 <= w < wins.len() && wins[w].id == id && pad_matches(j.pad, wins[w])
    } by {
        assert(step_facts(job_before(j, trace, k), trace[k].0, trace[k].1));
    }
    assert forall|k1: int, q1: int, k2: int, q2: int|
        0 <= k1 < trace.len() && 0 <= k2 < trace.len() && (k1, q1) != (k2, q2)
        && #[trigger] moved_window(job_effect(j, trace, k1), q1) is Some && #[trigger] moved_window(job_effect(j, trace, k2), q2) is Some
        implies moved_window(job_effect(j, trace, k1), q1) != moved_window(job_effect(j, trace, k2), q2) by {
        assert(step_facts(job_before(j, trace, k1), trace[k1].0, trace[k1].1));
        assert(step_facts(job_before(j, trace, k2), trace[k2].0, trace[k2].1));
        if k1 < k2 {
            lemma_job_before_step(j, trace, k1);
            lemma_job_run_grows(j, trace, k1 + 1, k2);
            let id = moved_window(job_effect(j, trace, k1), q1)->0;
            assert(job_before(j, trace, k1 + 1).anchored.contains(id));
        } else if k2 < k1 {
            lemma_job_before_step(j, trace, k2);
            lemma_job_run_grows(j, trace, k2 + 1, k1);
            let id = moved_window(job_effect(j, trace, k2), q2)->0;
            assert(job_before(j, trace, k2 + 1).anchored.contains(id));
        }
    }
    assert forall|k: int| 0 <= k < trace.len() && #[trigger] job_effect(j, trace, k) is QueryWorkspaces
        implies job_before(j, trace, k + 1).anchored.len() >= j.expected by {
        assert(step_facts(job_before(j, trace, k), trace[k].0, trace[k].1));
        lemma_job_before_step(j, trace, k);
        lemma_job_run_sound(j, trace, k + 1);
    }
    assert forall|k1: int, k2: int| 0 <= k1 < k2 < trace.len() && #[trigger] job_effect(j, trace, k1) is QueryWorkspaces
        implies !(#[trigger] job_effect(j, trace, k2) is QueryWindows)
            && forall|q: int| !(#[trigger] moved_window(job_effect(j, trace, k2), q) is Some) by {
        assert(step_facts(job_before(j, trace, k1), trace[k1].0, trace[k1].1));
        lemma_job_before_step(j, trace, k1);
        assert(settled(job_before(j, trace, k1 + 1)));
        lemma_job_run_grows(j, trace, k1 + 1, k2);
        assert(step_facts(job_before(j, trace, k2), trace[k2].0, trace[k2].1));
    }
    assert forall|k: int| 0 <= k < trace.len() && #[trigger] job_effect(j, trace, k) is Perform
        && has_focus(job_effect(j, trace, k)->Perform_0) implies {
        let s = job_before(j, trace, k);
        &&& s.anchored.len() >= j.expected
        &&& trace[k].0 matches AnchorEventView::Workspaces(Ok(ws)) && still_visible(j.pad, ws)
        &&& job_effect(j, trace, k)->Perform_0 == initial_focus(j.pad, s.latest, s.anchored)
    } by {
        assert(step_facts(job_before(j, trace, k), trace[k].0, trace[k].1));
    }
}

/// Anchoring moves only windows that belong to the scratchpad, did not exist before the
/// launch and are not anchored yet, each onto the scratchpad's workspace, and counts every
/// anchored window once.
pub proof fn law_anchoring_moves_only_new_windows(
    pad: PadView,
    wins: Seq<WindowView>,
    before: Seq<u64>,
    anchored: Seq<u64>,
)
    requires
        anchored.no_duplicates(),
    ensures
        ({
            let fresh = fresh_ids(pad, wins, before, anchored);
            &&& forall|k: int| 0 <= k < fresh.len() ==> {
                &&& !before.contains(#[trigger] fresh[k])
                &&& !anchored.contains(fresh[k])
                &&& exists|w: int| 0 <= w < wins.len() && wins[w].id == fresh[k] && pad_matches(pad, wins[w])
                &&& anchor_moves(pad, fresh)[k] == (ActionView::MoveWindowToWorkspace { window_id: fresh[k], workspace: pad.workspace })
            }
            &&& anchor_moves(pad, fresh).len() == fresh.len()
            &&& with_ids(anchored, fresh).no_duplicates()
            &&& forall|x: u64| #[trigger] with_ids(anchored, fresh).contains(x) <==> (anchored.contains(x) || fresh.contains(x))
        }),
{
    let mp = |w: WindowView| pad_matches(pad, w);
    let matched = wins.filter(mp);
    let ids = matched.map_values(|w: WindowView| w.id);
    let fp = |id: u64| !before.contains(id) && !anchored.contains(id);
    let fresh = ids.filter(fp);
    assert(fresh == fresh_ids(pad, wins, before, anchored));
    assert forall|k: int| 0 <= k < fresh.len() implies {
        &&& !before.contains(#[trigger] fresh[k])
        &&& !anchored.contains(fresh[k])
        &&& exists|w: int| 0 <= w < wins.len() && wins[w].id == fresh[k] && pad_matches(pad, wins[w])
    } by {
        ids.lemma_filter_pred(fp, k);
        assert(fresh.contains(fresh[k]));
        ids.lemma_filter_contains_rev(fp, fresh[k]);
        let a = choose|a: int| 0 <= a < ids.len() && ids[a] == fresh[k];
        wins.lemma_filter_pred(mp, a);
        assert(matched.contains(matched[a]));
        wins.lemma_filter_contains_rev(mp, matched[a]);
        let w = choose|w: int| 0 <= w < wins.len() && wins[w] == matched[a];
        assert(wins[w].id == fresh[k]);
    }
    lemma_with_ids_no_duplicates(anchored, fresh);
}

/// A toggle, show or hide request for a scratchpad that is not configured is refused with an
/// error naming it, before the compositor is asked anything.
pub proof fn law_unknown_scratchpad_is_refused(e: EngineView, name: Seq<char>, now: u64)
    requires
        e.phase == PhaseView::Idle,
        forall|k: int| 0 <= k < e.pads.len() ==> (#[trigger] e.pads[k]).0 != name,
    ensures
        ({
            let refused = (
                EngineView { phase: PhaseView::Idle, ..e },
                EffectView::Reply(Err(ErrorView::UnknownScratchpad { name })),
            );
            &&& engine_next(e, EventView::Request(RequestView::Toggle { scratchpad: name }), now) == refused
            &&& engine_next(e, EventView::Request(RequestView::Show { scratchpad: name }), now) == refused
            &&& engine_next(e, EventView::Request(RequestView::Hide { scratchpad: name }), now) == refused
        }),
{
    lemma_pad_position(e.pads, name);
}

/// A toggle, show or hide request whose snapshot has no focused workspace is refused, and the
/// return targets are left as they were.
pub proof fn law_no_focused_workspace_is_refused(
    e: EngineView,
    name: Seq<char>,
    desired: Desired,
    ws: Seq<WorkspaceView>,
    wins: Seq<WindowView>,
    now: u64,
)
    requires
        e.phase == (PhaseView::TransitionWindows { name, desired, workspaces: ws }),
        pad_position(e.pads, name) is Some,
        forall|k: int| 0 <= k < ws.len() ==> !(#[trigger] ws[k]).is_focused,
    ensures
        engine_next(e, EventView::Windows(Ok(wins)), now)
            == (EngineView { phase: PhaseView::Idle, ..e }, EffectView::Reply(Err(ErrorView::NoFocusedWorkspace))),
{
    lemma_focused_position(ws);
}

/// A scratchpad without any pattern owns no window.
pub proof fn law_no_pattern_no_windows(pad: PadView, wins: Seq<WindowView>)
    requires
        pad.match_app_id is None,
        pad.match_title is None,
    ensures
        matching_ids(pad, wins).len() == 0,
{
    let mp = |w: WindowView| pad_matches(pad, w);
    if wins.filter(mp).len() > 0 {
        wins.lemma_filter_pred(mp, 0);
    }
}

/// The status of a scratchpad that is not configured is an error naming it.
pub proof fn law_status_of_unknown_is_error(
    pads: Seq<(Seq<char>, PadView)>,
    name: Seq<char>,
    ws: Seq<WorkspaceView>,
    wins: Seq<WindowView>,
    origins: Map<Seq<char>, ReturnTargetView>,
)
    requires
        forall|k: int| 0 <= k < pads.len() ==> (#[trigger] pads[k]).0 != name,
    ensures
        crate::planning::status_outcome(pads, Some(name), ws, wins, origins)
            == Err::<Seq<crate::planning::StatusView>, ErrorView>(ErrorView::UnknownScratchpad { name }),
{
    let bad = crate::planning::broken_considered(Some(name));
    crate::model::lemma_find_first(pads, bad);
    if let Some(j) = find_first(pads, bad) {
        assert(pads[j].0 != name);
    }
}


/// A configuration is accepted exactly when it follows the rules: at least one scratchpad;
/// every name non-empty, not blank and free of whitespace; every workspace non-blank, none of
/// the normal workspaces `1` to `6`, and used by one scratchpad only; a scratchpad that launches
/// applications has a command; no command is empty; and every pattern compiles.
pub proof fn law_accepted_configuration(pads: Seq<(Seq<char>, PadView)>)
    ensures
        config_issue(pads) is None <==> follows_rules(pads),
{
    lemma_rules(pads);
}

/// Showing a scratchpad that has windows focuses its workspace's own last-focused window when
/// that window is among them, so that it resumes where it was left.
pub proof fn law_show_resumes_last_focused_window(
    pad: PadView,
    ws: Seq<WorkspaceView>,
    wins: Seq<WindowView>,
    k: int,
    j: int,
)
    requires
        named_position(ws, pad.workspace) == Some(k),
        0 <= j < wins.len(),
        ws[k].active_window_id == Some(wins[j].id),
        pad_matches(pad, wins[j]),
        wins[j].workspace_id == Some(ws[k].id) || pad.adopt_existing,
    ensures
        presentation(pad, ws, wins).last() == (ActionView::FocusWindow { id: wins[j].id }),
{
    lemma_named_position(ws, pad.workspace);
    let sid = scratch_id(pad, ws);
    let sp = |w: WindowView| pad_matches(pad, w) && (w.workspace_id == sid || pad.adopt_existing);
    let selected = wins.filter(sp);
    wins.lemma_filter_contains(sp, j);
    let q = choose|q: int| 0 <= q < selected.len() && selected[q] == wins[j];
    assert(selected[q].id == wins[j].id);
    assert(selected == selected_windows(pad, wins, sid));
}

/// `k` is the first workspace of the snapshot named `w`.
pub open spec fn first_named(ws: Seq<WorkspaceView>, w: Seq<char>, k: int) -> bool {
    &&& 0 <= k < ws.len()
    &&& ws[k].name == Some(w)
    &&& forall|j: int| 0 <= j < k ==> (#[trigger] ws[j]).name != Some(w)
}

/// `k` is the first workspace of the snapshot that is focused.
pub open spec fn first_focused(ws: Seq<WorkspaceView>, k: int) -> bool {
    &&& 0 <= k < ws.len()
    &&& ws[k].is_focused
    &&& forall|j: int| 0 <= j < k ==> !(#[trigger] ws[j]).is_focused
}

/// No workspace of the snapshot is named `w`.
pub open spec fn absent(ws: Seq<WorkspaceView>, w: Seq<char>) -> bool {
    forall|k: int| 0 <= k < ws.len() ==> (#[trigger] ws[k]).name != Some(w)
}

/// The number of commands a launch of `pad` spawns: its `commands`, or its single `command`.
pub open spec fn command_count(pad: PadView) -> nat {
    if pad.commands.len() == 0 {
        1
    } else {
        pad.commands.len()
    }
}

/// A launch waits for one new window per spawned command: the batch it performs spawns one
/// command for each entry of `commands` (or the single `command`), and the count of windows
/// it then waits for, in the daemon's own look and in the background job alike, is the size of
/// that batch.
pub proof fn law_launch_waits_for_a_window_per_command(e: EngineView, name: Seq<char>, before: Seq<u64>, now: u64)
    requires
        e.phase == (PhaseView::Presenting { name, has_windows: false, before }),
        pad_position(e.pads, name) is Some,
        e.pads[pad_position(e.pads, name)->0].1.launch_if_missing,
        !(e.pending_until.contains_key(name) && e.pending_until[name] > now),
    ensures
        ({
            let pad = e.pads[pad_position(e.pads, name)->0].1;
            let s = engine_next(e, EventView::Performed(Ok(())), now);
            let s2 = engine_next(s.0, EventView::Performed(Ok(())), now);
            &&& s.1 is Perform
            &&& s.1->Perform_0.len() == command_count(pad)
            &&& forall|k: int| 0 <= k < s.1->Perform_0.len() ==> (#[trigger] s.1->Perform_0[k]) is Spawn
            &&& s.0.phase is Spawning
            &&& s.0.phase->Spawning_expected == s.1->Perform_0.len()
            &&& (s2.1 is StartAnchor ==> {
                &&& s2.1->StartAnchor_0.expected == command_count(pad)
                &&& s2.1->StartAnchor_0.name == name
                &&& s2.1->StartAnchor_0.pad == pad
                &&& s2.1->StartAnchor_0.before == before
            })
            &&& (s2.0.phase is Sleeping ==> s2.0.phase->Sleeping_poll.expected == command_count(pad))
        }),
{
    let pad = e.pads[pad_position(e.pads, name)->0].1;
    let s = engine_next(e, EventView::Performed(Ok(())), now);
    assert(s.1->Perform_0.len() == command_count(pad));
    assert forall|k: int| 0 <= k < s.1->Perform_0.len() implies (#[trigger] s.1->Perform_0[k]) is Spawn by {}
}

/// A status entry reports the scratchpad visible exactly when the first workspace named after
/// its workspace is focused, and active exactly when that workspace is active; every entry is
/// the entry of a scratchpad the request considers, by its name and workspace, listing exactly
/// the windows that belong to it and its return target, if it has one; and every scratchpad the
/// request considers has an entry.
#[verifier::rlimit(40)]
pub proof fn law_status_visible_means_focused(
    pads: Seq<(Seq<char>, PadView)>,
    only: Option<Seq<char>>,
    ws: Seq<WorkspaceView>,
    wins: Seq<WindowView>,
    origins: Map<Seq<char>, ReturnTargetView>,
)
    requires
        status_outcome(pads, only, ws, wins, origins) is Ok,
    ensures
        ({
            let entries = status_outcome(pads, only, ws, wins, origins)->Ok_0;
            &&& forall|i: int| 0 <= i < entries.len() ==> {
                &&& (#[trigger] entries[i]).visible
                    == exists|k: int| first_named(ws, entries[i].workspace, k) && ws[k].is_focused
                &&& entries[i].active == exists|k: int| first_named(ws, entries[i].workspace, k) && ws[k].is_active
                &&& entries[i].origin == (if origins.contains_key(entries[i].name) {
                    Some(origins[entries[i].name])
                } else {
                    None
                })
                &&& exists|p: int| 0 <= p < pads.len() && pads[p].0 == entries[i].name
                    && pads[p].1.workspace == entries[i].workspace && is_considered(only, pads[p].0)
                    && forall|x: u64| #[trigger] entries[i].window_ids.contains(x)
                        == exists|j: int| 0 <= j < wins.len() && wins[j].id == x && pad_matches(pads[p].1, wins[j])
            }
            &&& forall|p: int| 0 <= p < pads.len() && is_considered(only, (#[trigger] pads[p]).0)
                ==> exists|i: int| 0 <= i < entries.len() && entries[i].name == pads[p].0
        }),
{
    let entries = status_outcome(pads, only, ws, wins, origins)->Ok_0;
    let cp = |e: (Seq<char>, PadView)| is_considered(only, e.0);
    let considered = pads.filter(cp);
    assert forall|i: int| 0 <= i < entries.len() implies {
        &&& (#[trigger] entries[i]).visible
            == exists|k: int| first_named(ws, entries[i].workspace, k) && ws[k].is_focused
        &&& entries[i].active == exists|k: int| first_named(ws, entries[i].workspace, k) && ws[k].is_active
        &&& entries[i].origin == (if origins.contains_key(entries[i].name) {
            Some(origins[entries[i].name])
        } else {
            None
        })
        &&& exists|p: int| 0 <= p < pads.len() && pads[p].0 == entries[i].name
            && pads[p].1.workspace == entries[i].workspace && is_considered(only, pads[p].0)
            && forall|x: u64| #[trigger] entries[i].window_ids.contains(x)
                == exists|j: int| 0 <= j < wins.len() && wins[j].id == x && pad_matches(pads[p].1, wins[j])
    } by {
        let c = considered[i];
        assert(entries[i] == status_of(c.0, c.1, ws, wins, origins));
        lemma_named_position(ws, c.1.workspace);
        match named_position(ws, c.1.workspace) {
            Some(k) => {
                assert(first_named(ws, c.1.workspace, k));
                assert forall|k2: int| first_named(ws, c.1.workspace, k2) implies k2 == k by {
                    if k2 < k {
                        assert(ws[k2].name == Some(c.1.workspace));
                    } else if k < k2 {
                        assert(ws[k].name == Some(c.1.workspace));
                    }
                }
            },
            None => {},
        }
        pads.lemma_filter_pred(cp, i);
        assert(considered.contains(c));
        pads.lemma_filter_contains_rev(cp, c);
        let p = choose|p: int| 0 <= p < pads.len() && pads[p] == c;
        let mp = |w: WindowView| pad_matches(c.1, w);
        let matched = wins.filter(mp);
        let ids = matched.map_values(|w: WindowView| w.id);
        assert(entries[i].window_ids == ids);
        assert forall|x: u64| #[trigger] ids.contains(x)
            == exists|j: int| 0 <= j < wins.len() && wins[j].id == x && pad_matches(c.1, wins[j]) by {
            if ids.contains(x) {
                let q = choose|q: int| 0 <= q < ids.len() && ids[q] == x;
                wins.lemma_filter_pred(mp, q);
                assert(matched.contains(matched[q]));
                wins.lemma_filter_contains_rev(mp, matched[q]);
                let j = choose|j: int| 0 <= j < wins.len() && wins[j] == matched[q];
                assert(wins[j].id == x && pad_matches(c.1, wins[j]));
            }
            if exists|j: int| 0 <= j < wins.len() && wins[j].id == x && pad_matches(c.1, wins[j]) {
                let j = choose|j: int| 0 <= j < wins.len() && wins[j].id == x && pad_matches(c.1, wins[j]);
                wins.lemma_filter_contains(mp, j);
                let q = choose|q: int| 0 <= q < matched.len() && matched[q] == wins[j];
                assert(ids[q] == x);
            }
        }
        assert(pads[p].0 == entries[i].name);
        assert(pads[p].1 == c.1);
        assert(forall|x: u64| #[trigger] entries[i].window_ids.contains(x)
            == exists|j: int| 0 <= j < wins.len() && wins[j].id == x && pad_matches(pads[p].1, wins[j]));
        assert(0 <= p < pads.len() && pads[p].0 == entries[i].name
            && pads[p].1.workspace == entries[i].workspace && is_considered(only, pads[p].0)
            && forall|x: u64| #[trigger] entries[i].window_ids.contains(x)
                == exists|j: int| 0 <= j < wins.len() && wins[j].id == x && pad_matches(pads[p].1, wins[j]));
    }
    assert forall|p: int| 0 <= p < pads.len() && is_considered(only, (#[trigger] pads[p]).0)
        implies exists|i: int| 0 <= i < entries.len() && entries[i].name == pads[p].0 by {
        pads.lemma_filter_contains(cp, p);
        let q = choose|q: int| 0 <= q < considered.len() && considered[q] == pads[p];
        assert(entries[q] == status_of(considered[q].0, considered[q].1, ws, wins, origins));
    }
}

/// The window lies on the first workspace named `w`; when the snapshot has no such workspace,
/// a window that lies on no workspace counts, as the compositor's missing ids compare equal.
pub open spec fn on_scratch_workspace(ws: Seq<WorkspaceView>, w: Seq<char>, win: WindowView) -> bool {
    ||| exists|k: int| first_named(ws, w, k) && win.workspace_id == Some(ws[k].id)
    ||| absent(ws, w) && win.workspace_id is None
}

/// A presentation reports that the scratchpad has windows exactly when some window belongs to
/// it: it matches the scratchpad's patterns and lies on the scratchpad's workspace, or the
/// scratchpad adopts windows from anywhere.
pub proof fn law_has_windows_means_a_window_belongs(pad: PadView, ws: Seq<WorkspaceView>, wins: Seq<WindowView>)
    ensures
        has_windows(pad, ws, wins) == exists|j: int| 0 <= j < wins.len() && pad_matches(pad, #[trigger] wins[j])
            && (pad.adopt_existing || on_scratch_workspace(ws, pad.workspace, wins[j])),
{
    lemma_named_position(ws, pad.workspace);
    let sid = scratch_id(pad, ws);
    let sp = |w: WindowView| pad_matches(pad, w) && (w.workspace_id == sid || pad.adopt_existing);
    let selected = wins.filter(sp);
    assert forall|j: int| 0 <= j < wins.len() implies
        ((pad.adopt_existing || on_scratch_workspace(ws, pad.workspace, wins[j]))
            == (wins[j].workspace_id == sid || pad.adopt_existing)) by {
        match named_position(ws, pad.workspace) {
            Some(k) => {
                assert(first_named(ws, pad.workspace, k));
                assert forall|k2: int| first_named(ws, pad.workspace, k2) implies k2 == k by {
                    if k2 < k {
                        assert(ws[k2].name == Some(pad.workspace));
                    } else if k < k2 {
                        assert(ws[k].name == Some(pad.workspace));
                    }
                }
                assert(!absent(ws, pad.workspace)) by {
                    assert(ws[k].name == Some(pad.workspace));
                }
                if wins[j].workspace_id == sid {
                    assert(first_named(ws, pad.workspace, k) && wins[j].workspace_id == Some(ws[k].id));
                }
            },
            None => {
                assert forall|k2: int| !first_named(ws, pad.workspace, k2) by {
                    if 0 <= k2 < ws.len() {
                        assert(ws[k2].name != Some(pad.workspace));
                    }
                }
            },
        }
    }
    if selected.len() > 0 {
        wins.lemma_filter_pred(sp, 0);
        assert(selected.contains(selected[0]));
        wins.lemma_filter_contains_rev(sp, selected[0]);
        let j = choose|j: int| 0 <= j < wins.len() && wins[j] == selected[0];
        assert(sp(wins[j]));
    }
    if exists|j: int| 0 <= j < wins.len() && pad_matches(pad, #[trigger] wins[j])
        && (pad.adopt_existing || on_scratch_workspace(ws, pad.workspace, wins[j])) {
        let j = choose|j: int| 0 <= j < wins.len() && pad_matches(pad, #[trigger] wins[j])
            && (pad.adopt_existing || on_scratch_workspace(ws, pad.workspace, wins[j]));
        wins.lemma_filter_contains(sp, j);
    }
}

/// Showing a scratchpad once its return target is saved presents it, and the presentation
/// counts the scratchpad as having windows exactly when some window belongs to it.
pub proof fn law_presentation_counts_only_its_windows(
    e: EngineView,
    name: Seq<char>,
    ws: Seq<WorkspaceView>,
    wins: Seq<WindowView>,
    now: u64,
)
    requires
        e.phase == (PhaseView::ShowSaving { name, workspaces: ws, windows: wins }),
        pad_position(e.pads, name) is Some,
        patterns_compile(e.pads[pad_position(e.pads, name)->0].1),
    ensures
        ({
            let pad = e.pads[pad_position(e.pads, name)->0].1;
            let s = engine_next(e, EventView::Saved(Ok(())), now).0;
            &&& s.phase is Presenting
            &&& s.phase->Presenting_has_windows == exists|j: int| 0 <= j < wins.len() && pad_matches(pad, #[trigger] wins[j])
                && (pad.adopt_existing || on_scratch_workspace(ws, pad.workspace, wins[j]))
        }),
{
    let pad = e.pads[pad_position(e.pads, name)->0].1;
    law_has_windows_means_a_window_belongs(pad, ws, wins);
}

/// Hide-all picks the first scratchpad whose workspace is the focused one, and picks none only
/// when no scratchpad's workspace is focused.
pub proof fn law_hide_all_picks_the_focused_scratchpad(pads: Seq<(Seq<char>, PadView)>, ws: Seq<WorkspaceView>)
    ensures
        match hide_all_target(pads, ws) {
            Some(j) => 0 <= j < pads.len() && exists|f: int| first_focused(ws, f)
                && ws[f].name == Some(pads[j].1.workspace)
                && forall|i: int| 0 <= i < j ==> Some((#[trigger] pads[i]).1.workspace) != ws[f].name,
            None => forall|f: int, i: int| #[trigger] first_focused(ws, f) && 0 <= i < pads.len()
                ==> Some((#[trigger] pads[i]).1.workspace) != ws[f].name,
        },
{
    lemma_focused_position(ws);
    match focused_position(ws) {
        Some(f) => {
            assert(first_focused(ws, f));
            assert forall|f2: int| first_focused(ws, f2) implies f2 == f by {
                if f2 < f {
                    assert(ws[f2].is_focused);
                } else if f < f2 {
                    assert(ws[f].is_focused);
                }
            }
            match ws[f].name {
                Some(fname) => {
                    crate::model::lemma_find_first(pads, |e: (Seq<char>, PadView)| e.1.workspace == fname);
                },
                None => {},
            }
        },
        None => {},
    }
}

/// The doctor's report lists every configured scratchpad whose workspace the snapshot lacks,
/// with its workspace, and nothing else, one entry per such scratchpad; it is healthy exactly
/// when no workspace is missing.
pub proof fn law_doctor_lists_every_missing_workspace(e: EngineView, version: Seq<char>, ws: Seq<WorkspaceView>, now: u64)
    requires
        e.phase == (PhaseView::DoctorWorkspaces { version }),
    ensures
        ({
            let pads = e.pads;
            let reply = engine_next(e, EventView::Workspaces(Ok(ws)), now).1;
            &&& reply is Reply
            &&& reply->Reply_0 is Ok
            &&& reply->Reply_0->Ok_0 is Diagnosed
            &&& ({
                let missing = reply->Reply_0->Ok_0->Diagnosed_missing;
                &&& forall|i: int| 0 <= i < pads.len() && absent(ws, (#[trigger] pads[i]).1.workspace)
                    ==> missing.contains((pads[i].0, pads[i].1.workspace))
                &&& forall|q: int| 0 <= q < missing.len() ==> exists|i: int| 0 <= i < pads.len()
                    && absent(ws, pads[i].1.workspace) && #[trigger] missing[q] == (pads[i].0, pads[i].1.workspace)
                &&& missing.len() == pads.filter(|p: (Seq<char>, PadView)| absent(ws, p.1.workspace)).len()
                &&& reply->Reply_0->Ok_0->Diagnosed_healthy
                    == forall|i: int| 0 <= i < pads.len() ==> !absent(ws, (#[trigger] pads[i]).1.workspace)
            })
        }),
{
    let pads = e.pads;
    let np = |p: (Seq<char>, PadView)| named_position(ws, p.1.workspace) is None;
    let ap = |p: (Seq<char>, PadView)| absent(ws, p.1.workspace);
    let mf = |p: (Seq<char>, PadView)| (p.0, p.1.workspace);
    assert forall|p: (Seq<char>, PadView)| #[trigger] np(p) == ap(p) by {
        lemma_named_position(ws, p.1.workspace);
    }
    assert(np =~= ap);
    let absent_pads = pads.filter(ap);
    let missing = absent_pads.map_values(mf);
    assert(missing == crate::planning::missing_workspaces(pads, ws));
    assert forall|i: int| 0 <= i < pads.len() && absent(ws, (#[trigger] pads[i]).1.workspace)
        implies missing.contains((pads[i].0, pads[i].1.workspace)) by {
        pads.lemma_filter_contains(ap, i);
        let q = choose|q: int| 0 <= q < absent_pads.len() && absent_pads[q] == pads[i];
        assert(missing[q] == (pads[i].0, pads[i].1.workspace));
    }
    assert forall|q: int| 0 <= q < missing.len() implies exists|i: int| 0 <= i < pads.len()
        && absent(ws, pads[i].1.workspace) && #[trigger] missing[q] == (pads[i].0, pads[i].1.workspace) by {
        pads.lemma_filter_pred(ap, q);
        assert(absent_pads.contains(absent_pads[q]));
        pads.lemma_filter_contains_rev(ap, absent_pads[q]);
        let i = choose|i: int| 0 <= i < pads.len() && pads[i] == absent_pads[q];
        assert(missing[q] == (pads[i].0, pads[i].1.workspace));
    }
    if missing.len() == 0 {
        assert forall|i: int| 0 <= i < pads.len() implies !absent(ws, (#[trigger] pads[i]).1.workspace) by {
            if absent(ws, pads[i].1.workspace) {
                pads.lemma_filter_contains(ap, i);
            }
        }
    } else {
        pads.lemma_filter_pred(ap, 0);
        assert(absent_pads.contains(absent_pads[0]));
        pads.lemma_filter_contains_rev(ap, absent_pads[0]);
    }
}

} // verus!
