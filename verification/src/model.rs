//! Plain data of the compositor and of the daemon: workspaces, windows, actions, return
//! targets, the persisted state and the control protocol.

use vstd::prelude::*;
use crate::text::{
    opt_view, copy_opt_string, str_eq, text_less, compare_text, TextOrder, lemma_text_less_irreflexive,
    lemma_text_less_transitive, lemma_text_less_total,
};

verus! {

/// Version of the control protocol spoken on the daemon socket.
pub const PROTOCOL_VERSION: u8 = 1;

// ---------------------------------------------------------------------------------------------
// Searching a sequence for its first element with a property.

/// The first index at or after `i` whose element satisfies `p`.
pub open spec fn find_from<A>(s: Seq<A>, p: spec_fn(A) -> bool, i: int) -> Option<int>
    decreases s.len() - i,
{
    if i < 0 || i >= s.len() {
        None
    } else if p(s[i]) {
        Some(i)
    } else {
        find_from(s, p, i + 1)
    }
}

/// The first index whose element satisfies `p`.
pub open spec fn find_first<A>(s: Seq<A>, p: spec_fn(A) -> bool) -> Option<int> {
    find_from(s, p, 0)
}

pub proof fn lemma_find_from<A>(s: Seq<A>, p: spec_fn(A) -> bool, i: int)
    requires
        0 <= i,
    ensures
        match find_from(s, p, i) {
            Some(j) => i <= j < s.len() && p(s[j]) && forall|k: int| i <= k < j ==> !p(#[trigger] s[k]),
            None => forall|k: int| i <= k < s.len() ==> !p(#[trigger] s[k]),
        },
    decreases s.len() - i,
{
    if i < s.len() && !p(s[i]) {
        lemma_find_from(s, p, i + 1);
    }
}

pub proof fn lemma_find_first<A>(s: Seq<A>, p: spec_fn(A) -> bool)
    ensures
        match find_first(s, p) {
            Some(j) => 0 <= j < s.len() && p(s[j]) && forall|k: int| 0 <= k < j ==> !p(#[trigger] s[k]),
            None => forall|k: int| 0 <= k < s.len() ==> !p(#[trigger] s[k]),
        },
{
    lemma_find_from(s, p, 0);
}

pub proof fn lemma_filter_take_step<A>(s: Seq<A>, p: spec_fn(A) -> bool, i: int)
    requires
        0 <= i < s.len(),
    ensures
        s.take(i + 1).filter(p) == if p(s[i]) {
            s.take(i).filter(p).push(s[i])
        } else {
            s.take(i).filter(p)
        },
{
    reveal(Seq::filter);
    assert(s.take(i + 1).drop_last() =~= s.take(i));
    assert(s.take(i + 1).last() == s[i]);
}

pub proof fn lemma_filter_push<A>(s: Seq<A>, x: A, p: spec_fn(A) -> bool)
    ensures
        s.push(x).filter(p) == if p(x) {
            s.filter(p).push(x)
        } else {
            s.filter(p)
        },
{
    reveal(Seq::filter);
    assert(s.push(x).drop_last() =~= s);
}

/// Whether `x` occurs in `v`.
pub fn contains_u64(v: &Vec<u64>, x: u64) -> (r: bool)
    ensures
        r == v@.contains(x),
{
    let n = v.len();
    let mut i: usize = 0;
    while i < n
        invariant
            n == v@.len(),
            i <= n,
            forall|k: int| 0 <= k < i ==> v@[k] != x,
        decreases n - i,
    {
        if v[i] == x {
            assert(v@[i as int] == x);
            return true;
        }
        i = i + 1;
    }
    false
}

// ---------------------------------------------------------------------------------------------
// Compositor data.

/// A workspace as the compositor reports it.
#[derive(Debug, Clone, PartialEq, Eq)]
pub struct WorkspaceInfo {
    pub id: u64,
    pub name: Option<String>,
    pub output: Option<String>,
    pub is_active: bool,
    pub is_focused: bool,
    pub active_window_id: Option<u64>,
}

pub ghost struct WorkspaceView {
    pub id: u64,
    pub name: Option<Seq<char>>,
    pub output: Option<Seq<char>>,
    pub is_active: bool,
    pub is_focused: bool,
    pub active_window_id: Option<u64>,
}

impl View for WorkspaceInfo {
    type V = WorkspaceView;

    open spec fn view(&self) -> WorkspaceView {
        WorkspaceView {
            id: self.id,
            name: opt_view(self.name),
            output: opt_view(self.output),
            is_active: self.is_active,
            is_focused: self.is_focused,
            active_window_id: self.active_window_id,
        }
    }
}

/// A window as the compositor reports it.
#[derive(Debug, Clone, PartialEq, Eq)]
pub struct WindowInfo {
    pub id: u64,
    pub title: Option<String>,
    pub app_id: Option<String>,
    pub workspace_id: Option<u64>,
}

pub ghost struct WindowView {
    pub id: u64,
    pub title: Option<Seq<char>>,
    pub app_id: Option<Seq<char>>,
    pub workspace_id: Option<u64>,
}

impl View for WindowInfo {
    type V = WindowView;

    open spec fn view(&self) -> WindowView {
        WindowView {
            id: self.id,
            title: opt_view(self.title),
            app_id: opt_view(self.app_id),
            workspace_id: self.workspace_id,
        }
    }
}

pub open spec fn workspaces_view(v: Seq<WorkspaceInfo>) -> Seq<WorkspaceView> {
    v.map_values(|w: WorkspaceInfo| w@)
}

pub open spec fn windows_view(v: Seq<WindowInfo>) -> Seq<WindowView> {
    v.map_values(|w: WindowInfo| w@)
}

pub open spec fn strings_view(v: Seq<String>) -> Seq<Seq<char>> {
    v.map_values(|s: String| s@)
}

pub open spec fn commands_view(v: Seq<Vec<String>>) -> Seq<Seq<Seq<char>>> {
    v.map_values(|c: Vec<String>| strings_view(c@))
}

/// An action the daemon asks the compositor to perform.
#[derive(Debug, Clone, PartialEq, Eq)]
pub enum CompositorAction {
    /// Moves a window to the named workspace without moving the focus along.
    MoveWindowToWorkspace { window_id: u64, workspace: String },
    FocusWorkspaceByName { workspace: String },
    FocusWorkspaceById { id: u64 },
    FocusWorkspacePrevious,
    FocusWindow { id: u64 },
    Spawn { command: Vec<String> },
    MoveColumnToFirst,
    /// Sets the focused column's width to the whole available width.
    FillColumnWidth,
}

pub ghost enum ActionView {
    MoveWindowToWorkspace { window_id: u64, workspace: Seq<char> },
    FocusWorkspaceByName { workspace: Seq<char> },
    FocusWorkspaceById { id: u64 },
    FocusWorkspacePrevious,
    FocusWindow { id: u64 },
    Spawn { command: Seq<Seq<char>> },
    MoveColumnToFirst,
    FillColumnWidth,
}

impl View for CompositorAction {
    type V = ActionView;

    open spec fn view(&self) -> ActionView {
        match self {
            CompositorAction::MoveWindowToWorkspace { window_id, workspace } =>
                ActionView::MoveWindowToWorkspace { window_id: *window_id, workspace: workspace@ },
            CompositorAction::FocusWorkspaceByName { workspace } =>
                ActionView::FocusWorkspaceByName { workspace: workspace@ },
            CompositorAction::FocusWorkspaceById { id } => ActionView::FocusWorkspaceById { id: *id },
            CompositorAction::FocusWorkspacePrevious => ActionView::FocusWorkspacePrevious,
            CompositorAction::FocusWindow { id } => ActionView::FocusWindow { id: *id },
            CompositorAction::Spawn { command } => ActionView::Spawn { command: strings_view(command@) },
            CompositorAction::MoveColumnToFirst => ActionView::MoveColumnToFirst,
            CompositorAction::FillColumnWidth => ActionView::FillColumnWidth,
        }
    }
}

pub open spec fn actions_view(v: Seq<CompositorAction>) -> Seq<ActionView> {
    v.map_values(|a: CompositorAction| a@)
}

// ---------------------------------------------------------------------------------------------
// Where a hidden scratchpad returns to.

/// The workspace, and the window on it, that was focused before a scratchpad was shown.
#[derive(Debug, Clone, PartialEq, Eq)]
pub struct ReturnTarget {
    pub workspace_id: u64,
    pub workspace_name: Option<String>,
    pub output_name: Option<String>,
    pub focused_window_id: Option<u64>,
}

pub ghost struct ReturnTargetView {
    pub workspace_id: u64,
    pub workspace_name: Option<Seq<char>>,
    pub output_name: Option<Seq<char>>,
    pub focused_window_id: Option<u64>,
}

impl View for ReturnTarget {
    type V = ReturnTargetView;

    open spec fn view(&self) -> ReturnTargetView {
        ReturnTargetView {
            workspace_id: self.workspace_id,
            workspace_name: opt_view(self.workspace_name),
            output_name: opt_view(self.output_name),
            focused_window_id: self.focused_window_id,
        }
    }
}

impl ReturnTarget {
    pub fn copy(&self) -> (r: ReturnTarget)
        ensures
            r@ == self@,
    {
        ReturnTarget {
            workspace_id: self.workspace_id,
            workspace_name: copy_opt_string(&self.workspace_name),
            output_name: copy_opt_string(&self.output_name),
            focused_window_id: self.focused_window_id,
        }
    }
}

// ---------------------------------------------------------------------------------------------
// A map from names to values, kept as a list in ascending order of the names.

pub open spec fn has_key<V>(s: Seq<(String, V)>, k: Seq<char>) -> bool {
    exists|i: int| 0 <= i < s.len() && (#[trigger] s[i]).0@ == k
}

pub open spec fn key_position<V>(s: Seq<(String, V)>, k: Seq<char>) -> int {
    choose|i: int| 0 <= i < s.len() && (#[trigger] s[i]).0@ == k
}

pub open spec fn distinct_keys<V>(s: Seq<(String, V)>) -> bool {
    forall|i: int, j: int|
        0 <= i < s.len() && 0 <= j < s.len() && i != j ==> (#[trigger] s[i]).0@ != (#[trigger] s[j]).0@
}

/// Each name comes before every later one in the order of `text_less`.
pub open spec fn keys_ascending<V>(s: Seq<(String, V)>) -> bool {
    forall|i: int, j: int| 0 <= i < j < s.len() ==> text_less((#[trigger] s[i]).0@, (#[trigger] s[j]).0@)
}

pub proof fn lemma_ascending_distinct<V>(s: Seq<(String, V)>)
    requires
        keys_ascending(s),
    ensures
        distinct_keys(s),
{
    assert forall|i: int, j: int|
        0 <= i < s.len() && 0 <= j < s.len() && i != j implies (#[trigger] s[i]).0@ != (#[trigger] s[j]).0@ by {
        if i < j {
            lemma_text_less_irreflexive(s[i].0@);
        } else {
            lemma_text_less_irreflexive(s[j].0@);
        }
    }
}

/// The map that a list of entries stands for.
pub open spec fn entries_view<V: View>(s: Seq<(String, V)>) -> Map<Seq<char>, V::V> {
    Map::new(|k: Seq<char>| has_key(s, k), |k: Seq<char>| s[key_position(s, k)].1@)
}

pub proof fn lemma_entries_at<V: View>(s: Seq<(String, V)>, i: int)
    requires
        distinct_keys(s),
        0 <= i < s.len(),
    ensures
        entries_view(s).contains_key(s[i].0@),
        entries_view(s)[s[i].0@] == s[i].1@,
{
    let k = s[i].0@;
    assert(has_key(s, k));
    let j = key_position(s, k);
    assert(s[j].0@ == k);
}

/// Names mapped to values, kept like a `BTreeMap` keyed by name: the entries are in ascending
/// order of their names, so no name occurs twice.
#[derive(Debug)]
pub struct NamedMap<V> {
    entries: Vec<(String, V)>,
}

impl<V: View> View for NamedMap<V> {
    type V = Map<Seq<char>, V::V>;

    closed spec fn view(&self) -> Map<Seq<char>, V::V> {
        entries_view(self.entries@)
    }
}

impl<V> NamedMap<V> {
    #[verifier::type_invariant]
    closed spec fn names_ascend(self) -> bool {
        keys_ascending(self.entries@)
    }

    /// The entries, in ascending order of their names.
    pub closed spec fn ordered_entries(&self) -> Seq<(String, V)> {
        self.entries@
    }
}

impl<V: View> NamedMap<V> {
    pub fn new() -> (r: Self)
        ensures
            r@ == Map::<Seq<char>, V::V>::empty(),
            r.ordered_entries().len() == 0,
    {
        let r = NamedMap { entries: Vec::new() };
        assert(r@ =~= Map::<Seq<char>, V::V>::empty());
        r
    }

    /// The entries, in ascending order of their names.
    pub fn entries(&self) -> (r: &Vec<(String, V)>)
        ensures
            r@ == self.ordered_entries(),
            keys_ascending(r@),
            distinct_keys(r@),
            self@ == entries_view(r@),
    {
        proof {
            use_type_invariant(self);
            lemma_ascending_distinct(self.entries@);
        }
        &self.entries
    }

    fn position(&self, key: &str) -> (r: Option<usize>)
        ensures
            match r {
                Some(i) => i < self.entries@.len() && self.entries@[i as int].0@ == key@,
                None => !has_key(self.entries@, key@),
            },
    {
        let n = self.entries.len();
        let mut i: usize = 0;
        while i < n
            invariant
                n == self.entries@.len(),
                i <= n,
                forall|k: int| 0 <= k < i ==> (#[trigger] self.entries@[k]).0@ != key@,
            decreases n - i,
        {
            if str_eq(self.entries[i].0.as_str(), key) {
                return Some(i);
            }
            i = i + 1;
        }
        None
    }

    /// The first position whose name does not come before `key`.
    fn insertion_point(&self, key: &str) -> (r: usize)
        ensures
            r <= self.entries@.len(),
            forall|j: int| 0 <= j < r ==> text_less((#[trigger] self.entries@[j]).0@, key@),
            r < self.entries@.len() ==> !text_less(self.entries@[r as int].0@, key@),
    {
        let n = self.entries.len();
        let mut i: usize = 0;
        while i < n
            invariant
                n == self.entries@.len(),
                i <= n,
                forall|j: int| 0 <= j < i ==> text_less((#[trigger] self.entries@[j]).0@, key@),
            decreases n - i,
        {
            match compare_text(self.entries[i].0.as_str(), key) {
                TextOrder::Less => {},
                _ => {
                    return i;
                },
            }
            i = i + 1;
        }
        n
    }

    pub fn contains_key(&self, key: &str) -> (r: bool)
        ensures
            r == self@.contains_key(key@),
    {
        self.position(key).is_some()
    }

    pub fn get(&self, key: &str) -> (r: Option<&V>)
        ensures
            match r {
                Some(v) => self@.contains_key(key@) && self@[key@] == v@,
                None => !self@.contains_key(key@),
            },
    {
        proof {
            use_type_invariant(self);
            lemma_ascending_distinct(self.entries@);
        }
        match self.position(key) {
            Some(i) => {
                proof {
                    lemma_entries_at(self.entries@, i as int);
                }
                Some(&self.entries[i].1)
            },
            None => None,
        }
    }

    /// Sets the value of `key`, replacing the value it had; a new name takes its place in the
    /// order of names.
    pub fn insert(&mut self, key: String, value: V)
        ensures
            final(self)@ == old(self)@.insert(key@, value@),
    {
        proof {
            use_type_invariant(&*self);
            lemma_ascending_distinct(self.entries@);
        }
        let ghost old_entries = self.entries@;
        let ghost k = key@;
        let ghost v = value@;
        let i = self.insertion_point(key.as_str());
        let found = i < self.entries.len() && str_eq(self.entries[i].0.as_str(), key.as_str());
        let mut entries = Vec::new();
        std::mem::swap(&mut entries, &mut self.entries);
        if found {
            entries.set(i, (key, value));
            proof {
                let s = entries@;
                assert(keys_ascending(s)) by {
                    assert forall|a: int, b: int| 0 <= a < b < s.len() implies
                        text_less((#[trigger] s[a]).0@, (#[trigger] s[b]).0@) by {
                        assert(s[a].0@ == old_entries[a].0@ && s[b].0@ == old_entries[b].0@);
                    }
                }
                lemma_ascending_distinct(s);
                assert(entries_view(s) =~= entries_view(old_entries).insert(k, v)) by {
                    assert forall|q: Seq<char>| #[trigger] has_key(s, q) == (has_key(old_entries, q) || q == k) by {
                        if has_key(old_entries, q) {
                            let j = choose|j: int| 0 <= j < old_entries.len() && (#[trigger] old_entries[j]).0@ == q;
                            assert(s[j].0@ == old_entries[j].0@);
                        }
                        if q == k {
                            assert(s[i as int].0@ == k);
                        }
                        if has_key(s, q) {
                            let j = choose|j: int| 0 <= j < s.len() && (#[trigger] s[j]).0@ == q;
                            assert(s[j].0@ == old_entries[j].0@);
                        }
                    }
                    assert forall|q: Seq<char>| #[trigger] has_key(s, q) implies
                        entries_view(s)[q] == entries_view(old_entries).insert(k, v)[q] by {
                        let j = choose|j: int| 0 <= j < s.len() && (#[trigger] s[j]).0@ == q;
                        lemma_entries_at(s, j);
                        if j != i {
                            assert(s[j] == old_entries[j]);
                            lemma_entries_at(old_entries, j);
                        }
                    }
                }
            }
        } else {
            entries.insert(i, (key, value));
            proof {
                let s = entries@;
                let n = old_entries.len() as int;
                assert(forall|j: int| 0 <= j < i ==> #[trigger] s[j] == old_entries[j]);
                assert(forall|j: int| i < j < s.len() ==> #[trigger] s[j] == old_entries[j - 1]);
                assert(s[i as int].0@ == k);
                if i < n {
                    lemma_text_less_total(old_entries[i as int].0@, k);
                    assert(text_less(k, old_entries[i as int].0@));
                }
                assert(keys_ascending(s)) by {
                    assert forall|a: int, b: int| 0 <= a < b < s.len() implies
                        text_less((#[trigger] s[a]).0@, (#[trigger] s[b]).0@) by {
                        if b < i {
                            assert(s[a] == old_entries[a] && s[b] == old_entries[b]);
                        } else if b == i {
                            assert(s[a] == old_entries[a]);
                        } else if a < i {
                            assert(s[a] == old_entries[a] && s[b] == old_entries[b - 1]);
                        } else if a == i {
                            assert(s[b] == old_entries[b - 1]);
                            if b - 1 > i {
                                assert(text_less(old_entries[i as int].0@, old_entries[b - 1].0@));
                                lemma_text_less_transitive(k, old_entries[i as int].0@, old_entries[b - 1].0@);
                            }
                        } else {
                            assert(s[a] == old_entries[a - 1] && s[b] == old_entries[b - 1]);
                        }
                    }
                }
                lemma_ascending_distinct(s);
                assert(entries_view(s) =~= entries_view(old_entries).insert(k, v)) by {
                    assert forall|q: Seq<char>| #[trigger] has_key(s, q) == (has_key(old_entries, q) || q == k) by {
                        if has_key(old_entries, q) {
                            let j = choose|j: int| 0 <= j < old_entries.len() && (#[trigger] old_entries[j]).0@ == q;
                            let a = if j < i { j } else { j + 1 };
                            assert(s[a] == old_entries[j]);
                        }
                        if has_key(s, q) {
                            let a = choose|a: int| 0 <= a < s.len() && (#[trigger] s[a]).0@ == q;
                            if a < i {
                                assert(s[a] == old_entries[a]);
                            } else if a > i {
                                assert(s[a] == old_entries[a - 1]);
                            }
                        }
                    }
                    assert forall|q: Seq<char>| #[trigger] has_key(s, q) implies
                        entries_view(s)[q] == entries_view(old_entries).insert(k, v)[q] by {
                        let a = choose|a: int| 0 <= a < s.len() && (#[trigger] s[a]).0@ == q;
                        lemma_entries_at(s, a);
                        if a != i {
                            let oj = if a < i { a } else { a - 1 };
                            assert(s[a] == old_entries[oj]);
                            lemma_entries_at(old_entries, oj);
                            assert(s[a].0@ != s[i as int].0@);
                        }
                    }
                }
            }
        }
        self.entries = entries;
    }

    /// Removes `key` and hands back the value it had.
    pub fn remove(&mut self, key: &str) -> (r: Option<V>)
        ensures
            final(self)@ == old(self)@.remove(key@),
            match r {
                Some(v) => old(self)@.contains_key(key@) && old(self)@[key@] == v@,
                None => !old(self)@.contains_key(key@),
            },
    {
        proof {
            use_type_invariant(&*self);
            lemma_ascending_distinct(self.entries@);
        }
        let ghost old_entries = self.entries@;
        let ghost k = key@;
        match self.position(key) {
            Some(i) => {
                proof {
                    lemma_entries_at(old_entries, i as int);
                }
                let mut entries = Vec::new();
                std::mem::swap(&mut entries, &mut self.entries);
                let (_, value) = entries.remove(i);
                proof {
                    let s = entries@;
                    assert(forall|a: int| 0 <= a < s.len() ==> #[trigger] s[a] == old_entries[if a < i { a } else { a + 1 }]);
                    assert(keys_ascending(s)) by {
                        assert forall|a: int, b: int| 0 <= a < b < s.len() implies
                            text_less((#[trigger] s[a]).0@, (#[trigger] s[b]).0@) by {
                            let oa = if a < i { a } else { a + 1 };
                            let ob = if b < i { b } else { b + 1 };
                            assert(s[a] == old_entries[oa] && s[b] == old_entries[ob]);
                        }
                    }
                    lemma_ascending_distinct(s);
                    assert(entries_view(s) =~= entries_view(old_entries).remove(k)) by {
                        assert forall|q: Seq<char>| #[trigger] has_key(s, q) == (has_key(old_entries, q) && q != k) by {
                            if has_key(old_entries, q) && q != k {
                                let j = choose|j: int| 0 <= j < old_entries.len() && (#[trigger] old_entries[j]).0@ == q;
                                assert(j != i);
                                let a = if j < i { j } else { j - 1 };
                                assert(s[a] == old_entries[j]);
                            }
                            if has_key(s, q) {
                                let a = choose|a: int| 0 <= a < s.len() && (#[trigger] s[a]).0@ == q;
                                let oa = if a < i { a } else { a + 1 };
                                assert(s[a] == old_entries[oa]);
                                assert(oa != i);
                            }
                        }
                        assert forall|q: Seq<char>| #[trigger] has_key(s, q) implies
                            entries_view(s)[q] == entries_view(old_entries).remove(k)[q] by {
                            let a = choose|a: int| 0 <= a < s.len() && (#[trigger] s[a]).0@ == q;
                            let oa = if a < i { a } else { a + 1 };
                            assert(s[a] == old_entries[oa]);
                            lemma_entries_at(s, a);
                            lemma_entries_at(old_entries, oa);
                        }
                    }
                }
                self.entries = entries;
                Some(value)
            },
            None => {
                proof {
                    assert(entries_view(old_entries) =~= entries_view(old_entries).remove(k));
                }
                None
            },
        }
    }
}

// ---------------------------------------------------------------------------------------------
// Persisted state.

/// What the daemon keeps across restarts: where each shown scratchpad returns to.
#[derive(Debug)]
pub struct PersistedState {
    pub origins: NamedMap<ReturnTarget>,
}

impl PersistedState {
    pub fn new() -> (r: PersistedState)
        ensures
            r.origins@ == Map::<Seq<char>, ReturnTargetView>::empty(),
    {
        PersistedState { origins: NamedMap::new() }
    }
}

// ---------------------------------------------------------------------------------------------
// Control protocol.

/// A request sent to the daemon.
#[derive(Debug, Clone, PartialEq, Eq)]
pub enum ControlRequest {
    Toggle { scratchpad: String },
    Show { scratchpad: String },
    Hide { scratchpad: String },
    HideAll,
    Status { scratchpad: Option<String> },
    List,
    Doctor,
    Ping,
}

pub ghost enum RequestView {
    Toggle { scratchpad: Seq<char> },
    Show { scratchpad: Seq<char> },
    Hide { scratchpad: Seq<char> },
    HideAll,
    Status { scratchpad: Option<Seq<char>> },
    List,
    Doctor,
    Ping,
}

impl View for ControlRequest {
    type V = RequestView;

    open spec fn view(&self) -> RequestView {
        match self {
            ControlRequest::Toggle { scratchpad } => RequestView::Toggle { scratchpad: scratchpad@ },
            ControlRequest::Show { scratchpad } => RequestView::Show { scratchpad: scratchpad@ },
            ControlRequest::Hide { scratchpad } => RequestView::Hide { scratchpad: scratchpad@ },
            ControlRequest::HideAll => RequestView::HideAll,
            ControlRequest::Status { scratchpad } => RequestView::Status { scratchpad: opt_view(*scratchpad) },
            ControlRequest::List => RequestView::List,
            ControlRequest::Doctor => RequestView::Doctor,
            ControlRequest::Ping => RequestView::Ping,
        }
    }
}

} // verus!
