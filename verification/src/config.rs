//! The daemon configuration: its defaults, the rules a configuration must meet, and the
//! socket, state and configuration paths it resolves to.

use vstd::prelude::*;
use vstd::string::*;
use crate::text::{
    is_blank, has_whitespace, opt_view, is_blank_str, has_whitespace_str, replaced, replace_all,
    joined, join_path, copy_opt_string, concat3, debug_quoted, quote_debug,
};
use crate::pattern::{regex_compiles, regex_error_text, check_pattern, PatternFailure};
use crate::model::{strings_view, commands_view, NamedMap};

verus! {

/// Settings of the daemon itself.
#[derive(Debug, Clone)]
pub struct DaemonConfig {
    /// Control socket path; `${HOME}`, `${XDG_RUNTIME_DIR}` and `${XDG_STATE_HOME}` are expanded.
    pub socket: Option<String>,
    /// State file path, expanded the same way.
    pub state_file: Option<String>,
    pub launch_timeout_ms: u64,
    pub background_anchor: bool,
}

impl Default for DaemonConfig {
    fn default() -> (r: Self)
        ensures
            r.socket is None,
            r.state_file is None,
            r.launch_timeout_ms == 8000,
            r.background_anchor,
    {
        DaemonConfig { socket: None, state_file: None, launch_timeout_ms: 8_000, background_anchor: true }
    }
}

/// One scratchpad: its workspace, how to launch its applications and which windows belong to it.
#[derive(Debug, Clone)]
pub struct ScratchpadConfig {
    pub workspace: String,
    pub command: Vec<String>,
    pub commands: Vec<Vec<String>>,
    pub match_app_id: Option<String>,
    pub match_title: Option<String>,
    pub launch_if_missing: bool,
    pub adopt_existing: bool,
    pub initial_focus_app_id: Option<String>,
    pub initial_focus_full_width: bool,
}

pub ghost struct PadView {
    pub workspace: Seq<char>,
    pub command: Seq<Seq<char>>,
    pub commands: Seq<Seq<Seq<char>>>,
    pub match_app_id: Option<Seq<char>>,
    pub match_title: Option<Seq<char>>,
    pub launch_if_missing: bool,
    pub adopt_existing: bool,
    pub initial_focus_app_id: Option<Seq<char>>,
    pub initial_focus_full_width: bool,
}

impl View for ScratchpadConfig {
    type V = PadView;

    open spec fn view(&self) -> PadView {
        PadView {
            workspace: self.workspace@,
            command: strings_view(self.command@),
            commands: commands_view(self.commands@),
            match_app_id: opt_view(self.match_app_id),
            match_title: opt_view(self.match_title),
            launch_if_missing: self.launch_if_missing,
            adopt_existing: self.adopt_existing,
            initial_focus_app_id: opt_view(self.initial_focus_app_id),
            initial_focus_full_width: self.initial_focus_full_width,
        }
    }
}

impl Default for ScratchpadConfig {
    fn default() -> (r: Self)
        ensures
            r@ == (PadView {
                workspace: Seq::empty(),
                command: Seq::empty(),
                commands: Seq::empty(),
                match_app_id: None,
                match_title: None,
                launch_if_missing: true,
                adopt_existing: true,
                initial_focus_app_id: None,
                initial_focus_full_width: false,
            }),
    {
        let r = ScratchpadConfig {
            workspace: String::new(),
            command: Vec::new(),
            commands: Vec::new(),
            match_app_id: None,
            match_title: None,
            launch_if_missing: true,
            adopt_existing: true,
            initial_focus_app_id: None,
            initial_focus_full_width: false,
        };
        assert(strings_view(r.command@) =~= Seq::empty());
        assert(commands_view(r.commands@) =~= Seq::empty());
        r
    }
}

pub fn copy_strings(v: &Vec<String>) -> (r: Vec<String>)
    ensures
        strings_view(r@) == strings_view(v@),
{
    let mut r: Vec<String> = Vec::new();
    let n = v.len();
    let mut i: usize = 0;
    while i < n
        invariant
            n == v@.len(),
            i <= n,
            r@.len() == i,
            forall|k: int| 0 <= k < i ==> (#[trigger] r@[k])@ == v@[k]@,
        decreases n - i,
    {
        r.push(v[i].clone());
        i = i + 1;
    }
    assert(strings_view(r@) =~= strings_view(v@));
    r
}

fn copy_commands(v: &Vec<Vec<String>>) -> (r: Vec<Vec<String>>)
    ensures
        commands_view(r@) == commands_view(v@),
{
    let mut r: Vec<Vec<String>> = Vec::new();
    let n = v.len();
    let mut i: usize = 0;
    while i < n
        invariant
            n == v@.len(),
            i <= n,
            r@.len() == i,
            forall|k: int| 0 <= k < i ==> strings_view((#[trigger] r@[k])@) == strings_view(v@[k]@),
        decreases n - i,
    {
        r.push(copy_strings(&v[i]));
        i = i + 1;
    }
    assert(commands_view(r@) =~= commands_view(v@));
    r
}

impl ScratchpadConfig {
    /// A copy with the same view.
    pub fn copy(&self) -> (r: ScratchpadConfig)
        ensures
            r@ == self@,
    {
        ScratchpadConfig {
            workspace: self.workspace.clone(),
            command: copy_strings(&self.command),
            commands: copy_commands(&self.commands),
            match_app_id: copy_opt_string(&self.match_app_id),
            match_title: copy_opt_string(&self.match_title),
            launch_if_missing: self.launch_if_missing,
            adopt_existing: self.adopt_existing,
            initial_focus_app_id: copy_opt_string(&self.initial_focus_app_id),
            initial_focus_full_width: self.initial_focus_full_width,
        }
    }
}

/// The whole configuration; its scratchpads are kept in ascending order of their names.
#[derive(Debug)]
pub struct Config {
    pub daemon: DaemonConfig,
    pub scratchpads: NamedMap<ScratchpadConfig>,
}

impl Default for Config {
    fn default() -> (r: Self)
        ensures
            r.daemon.socket is None,
            r.daemon.state_file is None,
            r.daemon.launch_timeout_ms == 8000,
            r.daemon.background_anchor,
            r.scratchpads@ == Map::<Seq<char>, PadView>::empty(),
            r.pads().len() == 0,
    {
        Config { daemon: DaemonConfig::default(), scratchpads: NamedMap::new() }
    }
}

pub open spec fn pads_view(v: Seq<(String, ScratchpadConfig)>) -> Seq<(Seq<char>, PadView)> {
    v.map_values(|e: (String, ScratchpadConfig)| (e.0@, e.1@))
}

impl Config {
    /// The scratchpads by name, in ascending order of their names.
    pub open spec fn pads(&self) -> Seq<(Seq<char>, PadView)> {
        pads_view(self.scratchpads.ordered_entries())
    }
}

// ---------------------------------------------------------------------------------------------
// Validation.

/// Which pattern of a scratchpad failed to compile.
#[derive(Debug, Clone, Copy, PartialEq, Eq)]
pub enum PatternField {
    AppId,
    Title,
    InitialFocusAppId,
}

/// Why a configuration is rejected.
#[derive(Debug)]
pub enum ConfigError {
    NoScratchpads,
    /// The name is empty, blank or contains whitespace.
    InvalidName { name: String },
    EmptyWorkspace { name: String },
    /// The workspace is one of the normal workspaces `1` to `6`.
    ReservedWorkspace { name: String },
    SharedWorkspace { previous: String, name: String, workspace: String },
    /// Launching is enabled but there is no command.
    MissingCommand { name: String },
    EmptyCommand { name: String },
    /// A pattern does not compile; `error` says why.
    InvalidPattern { name: String, field: PatternField, error: PatternFailure },
}

pub ghost enum ConfigIssue {
    NoScratchpads,
    InvalidName { name: Seq<char> },
    EmptyWorkspace { name: Seq<char> },
    ReservedWorkspace { name: Seq<char> },
    SharedWorkspace { previous: Seq<char>, name: Seq<char>, workspace: Seq<char> },
    MissingCommand { name: Seq<char> },
    EmptyCommand { name: Seq<char> },
    InvalidPattern { name: Seq<char>, field: PatternField, text: Seq<char> },
}

impl ConfigError {
    pub open spec fn issue(&self) -> ConfigIssue {
        match self {
            ConfigError::NoScratchpads => ConfigIssue::NoScratchpads,
            ConfigError::InvalidName { name } => ConfigIssue::InvalidName { name: name@ },
            ConfigError::EmptyWorkspace { name } => ConfigIssue::EmptyWorkspace { name: name@ },
            ConfigError::ReservedWorkspace { name } => ConfigIssue::ReservedWorkspace { name: name@ },
            ConfigError::SharedWorkspace { previous, name, workspace } =>
                ConfigIssue::SharedWorkspace { previous: previous@, name: name@, workspace: workspace@ },
            ConfigError::MissingCommand { name } => ConfigIssue::MissingCommand { name: name@ },
            ConfigError::EmptyCommand { name } => ConfigIssue::EmptyCommand { name: name@ },
            ConfigError::InvalidPattern { name, field, error } =>
                ConfigIssue::InvalidPattern { name: name@, field: *field, text: error.text@ },
        }
    }
}

/// The word that names a pattern field in messages.
pub open spec fn field_word(field: PatternField) -> Seq<char> {
    match field {
        PatternField::AppId => "app_id"@,
        PatternField::Title => "title"@,
        PatternField::InitialFocusAppId => "initial focus"@,
    }
}

/// The message that rejects a configuration. The error of a broken pattern is not part of it;
/// it is the message's cause.
pub open spec fn issue_text(issue: ConfigIssue) -> Seq<char> {
    match issue {
        ConfigIssue::NoScratchpads => "at least one scratchpad must be configured"@,
        ConfigIssue::InvalidName { name } =>
            "scratchpad name must be non-empty and contain no whitespace: "@ + debug_quoted(name),
        ConfigIssue::EmptyWorkspace { name } => "scratchpad "@ + name + ": workspace must not be empty"@,
        ConfigIssue::ReservedWorkspace { name } =>
            "scratchpad "@ + name + ": workspace conflicts with normal workspace 1-6"@,
        ConfigIssue::SharedWorkspace { previous, name, workspace } =>
            "scratchpads "@ + previous + " and "@ + name + " share workspace "@ + workspace,
        ConfigIssue::MissingCommand { name } =>
            "scratchpad "@ + name + ": command or commands is required when launch_if_missing=true"@,
        ConfigIssue::EmptyCommand { name } =>
            "scratchpad "@ + name + ": commands must not contain an empty command"@,
        ConfigIssue::InvalidPattern { name, field, .. } =>
            "scratchpad "@ + name + ": invalid "@ + field_word(field) + " regex"@,
    }
}

impl ConfigError {
    /// The message that rejects the configuration.
    pub fn message(&self) -> (r: String)
        ensures
            r@ == issue_text(self.issue()),
    {
        match self {
            ConfigError::NoScratchpads => String::from_str("at least one scratchpad must be configured"),
            ConfigError::InvalidName { name } => {
                let quoted = quote_debug(name.as_str());
                String::from_str("scratchpad name must be non-empty and contain no whitespace: ").concat(quoted.as_str())
            },
            ConfigError::EmptyWorkspace { name } =>
                concat3("scratchpad ", name.as_str(), ": workspace must not be empty"),
            ConfigError::ReservedWorkspace { name } =>
                concat3("scratchpad ", name.as_str(), ": workspace conflicts with normal workspace 1-6"),
            ConfigError::SharedWorkspace { previous, name, workspace } => {
                let first = concat3("scratchpads ", previous.as_str(), " and ");
                let second = concat3(first.as_str(), name.as_str(), " share workspace ");
                second.concat(workspace.as_str())
            },
            ConfigError::MissingCommand { name } => concat3(
                "scratchpad ",
                name.as_str(),
                ": command or commands is required when launch_if_missing=true",
            ),
            ConfigError::EmptyCommand { name } =>
                concat3("scratchpad ", name.as_str(), ": commands must not contain an empty command"),
            ConfigError::InvalidPattern { name, field, .. } => {
                let word = match field {
                    PatternField::AppId => "app_id",
                    PatternField::Title => "title",
                    PatternField::InitialFocusAppId => "initial focus",
                };
                let head = concat3("scratchpad ", name.as_str(), ": invalid ");
                concat3(head.as_str(), word, " regex")
            },
        }
    }
}

/// The normal workspaces `1` to `6`, which a scratchpad may not take.
pub open spec fn is_numbered_workspace(w: Seq<char>) -> bool {
    w == seq!['1'] || w == seq!['2'] || w == seq!['3'] || w == seq!['4'] || w == seq!['5']
        || w == seq!['6']
}

/// A scratchpad name is non-empty, not blank and holds no whitespace.
pub open spec fn is_valid_name(name: Seq<char>) -> bool {
    !(is_blank(name) || has_whitespace(name))
}

/// The last scratchpad before position `i` that uses workspace `w`.
pub open spec fn last_with_workspace(pads: Seq<(Seq<char>, PadView)>, i: int, w: Seq<char>) -> Option<int>
    decreases i,
{
    if i <= 0 {
        None
    } else if pads[i - 1].1.workspace == w {
        Some(i - 1)
    } else {
        last_with_workspace(pads, i - 1, w)
    }
}

pub open spec fn has_empty_command(pad: PadView) -> bool {
    exists|j: int| 0 <= j < pad.commands.len() && (#[trigger] pad.commands[j]).len() == 0
}

pub open spec fn pattern_fails(p: Option<Seq<char>>) -> bool {
    match p {
        Some(p) => !regex_compiles(p),
        None => false,
    }
}

/// One scratchpad follows the rules: its name is non-empty, not blank and free of whitespace;
/// its workspace is not blank and none of the normal workspaces `1` to `6`; it has a command
/// if it launches applications; none of its commands is empty; each of its patterns compiles.
pub open spec fn pad_follows_rules(name: Seq<char>, pad: PadView) -> bool {
    &&& is_valid_name(name)
    &&& !is_blank(pad.workspace)
    &&& !is_numbered_workspace(pad.workspace)
    &&& (pad.launch_if_missing ==> pad.command.len() > 0 || pad.commands.len() > 0)
    &&& !has_empty_command(pad)
    &&& !pattern_fails(pad.match_app_id)
    &&& !pattern_fails(pad.match_title)
    &&& !pattern_fails(pad.initial_focus_app_id)
}

/// The configuration follows the rules: it has a scratchpad, every scratchpad follows the rules,
/// and no two use the same workspace.
pub open spec fn follows_rules(pads: Seq<(Seq<char>, PadView)>) -> bool {
    &&& pads.len() > 0
    &&& forall|i: int| 0 <= i < pads.len() ==> pad_follows_rules((#[trigger] pads[i]).0, pads[i].1)
    &&& forall|i: int, j: int| 0 <= j < i < pads.len() ==> (#[trigger] pads[j]).1.workspace != (#[trigger] pads[i]).1.workspace
}

proof fn lemma_last_with_workspace(pads: Seq<(Seq<char>, PadView)>, i: int, w: Seq<char>)
    ensures
        match last_with_workspace(pads, i, w) {
            Some(j) => 0 <= j < i && pads[j].1.workspace == w,
            None => forall|j: int| 0 <= j < i ==> (#[trigger] pads[j]).1.workspace != w,
        },
    decreases i,
{
    if i > 0 {
        lemma_last_with_workspace(pads, i - 1, w);
    }
}

proof fn lemma_first_issue_from(pads: Seq<(Seq<char>, PadView)>, i: int)
    requires
        0 <= i,
    ensures
        first_issue_from(pads, i) is None <==> forall|k: int| i <= k < pads.len() ==> #[trigger] pad_issue(pads, k) is None,
    decreases pads.len() - i,
{
    if i < pads.len() {
        lemma_first_issue_from(pads, i + 1);
    }
}

/// A configuration has no issue exactly when it follows the rules.
pub proof fn lemma_rules(pads: Seq<(Seq<char>, PadView)>)
    ensures
        config_issue(pads) is None <==> follows_rules(pads),
{
    if pads.len() > 0 {
        lemma_first_issue_from(pads, 0);
        assert forall|i: int| 0 <= i < pads.len() implies
            (#[trigger] pad_issue(pads, i) is None) == (pad_follows_rules(pads[i].0, pads[i].1)
                && forall|j: int| 0 <= j < i ==> (#[trigger] pads[j]).1.workspace != pads[i].1.workspace) by {
            lemma_last_with_workspace(pads, i, pads[i].1.workspace);
        }
        if config_issue(pads) is None {
            assert forall|i: int, j: int| 0 <= j < i < pads.len() implies
                (#[trigger] pads[j]).1.workspace != (#[trigger] pads[i]).1.workspace by {
                assert(pad_issue(pads, i) is None);
            }
            assert forall|i: int| 0 <= i < pads.len() implies pad_follows_rules((#[trigger] pads[i]).0, pads[i].1) by {
                assert(pad_issue(pads, i) is None);
            }
        }
        if follows_rules(pads) {
            assert forall|k: int| 0 <= k < pads.len() implies #[trigger] pad_issue(pads, k) is None by {
                assert(pad_follows_rules(pads[k].0, pads[k].1));
                assert forall|j: int| 0 <= j < k implies (#[trigger] pads[j]).1.workspace != pads[k].1.workspace by {
                    assert(pads[j].1.workspace != pads[k].1.workspace);
                }
            }
        }
    }
}

/// What is wrong with the scratchpad at position `i`, checked in the order the rules are listed.
pub open spec fn pad_issue(pads: Seq<(Seq<char>, PadView)>, i: int) -> Option<ConfigIssue> {
    let name = pads[i].0;
    let pad = pads[i].1;
    if !is_valid_name(name) {
        Some(ConfigIssue::InvalidName { name })
    } else if is_blank(pad.workspace) {
        Some(ConfigIssue::EmptyWorkspace { name })
    } else if is_numbered_workspace(pad.workspace) {
        Some(ConfigIssue::ReservedWorkspace { name })
    } else if last_with_workspace(pads, i, pad.workspace) is Some {
        Some(ConfigIssue::SharedWorkspace {
            previous: pads[last_with_workspace(pads, i, pad.workspace)->0].0,
            name,
            workspace: pad.workspace,
        })
    } else if pad.command.len() == 0 && pad.commands.len() == 0 && pad.launch_if_missing {
        Some(ConfigIssue::MissingCommand { name })
    } else if has_empty_command(pad) {
        Some(ConfigIssue::EmptyCommand { name })
    } else if pattern_fails(pad.match_app_id) {
        Some(ConfigIssue::InvalidPattern {
            name,
            field: PatternField::AppId,
            text: regex_error_text(pad.match_app_id->0),
        })
    } else if pattern_fails(pad.match_title) {
        Some(ConfigIssue::InvalidPattern { name, field: PatternField::Title, text: regex_error_text(pad.match_title->0) })
    } else if pattern_fails(pad.initial_focus_app_id) {
        Some(ConfigIssue::InvalidPattern {
            name,
            field: PatternField::InitialFocusAppId,
            text: regex_error_text(pad.initial_focus_app_id->0),
        })
    } else {
        None
    }
}

/// The first issue among the scratchpads from position `i` on.
pub open spec fn first_issue_from(pads: Seq<(Seq<char>, PadView)>, i: int) -> Option<ConfigIssue>
    decreases pads.len() - i,
{
    if i < 0 || i >= pads.len() {
        None
    } else {
        match pad_issue(pads, i) {
            Some(issue) => Some(issue),
            None => first_issue_from(pads, i + 1),
        }
    }
}

/// Why the configuration is rejected, if it is.
pub open spec fn config_issue(pads: Seq<(Seq<char>, PadView)>) -> Option<ConfigIssue> {
    if pads.len() == 0 {
        Some(ConfigIssue::NoScratchpads)
    } else {
        first_issue_from(pads, 0)
    }
}

fn is_numbered_workspace_str(w: &str) -> (r: bool)
    ensures
        r == is_numbered_workspace(w@),
{
    if w.unicode_len() != 1 {
        assert(!is_numbered_workspace(w@)) by {
            assert(seq!['1'].len() == 1);
        }
        return false;
    }
    let c = w.get_char(0);
    let r = c == '1' || c == '2' || c == '3' || c == '4' || c == '5' || c == '6';
    assert(w@ =~= seq![c]);
    assert(r ==> is_numbered_workspace(w@));
    assert(is_numbered_workspace(w@) ==> r) by {
        if w@ == seq!['1'] { assert(w@[0] == '1'); }
        if w@ == seq!['2'] { assert(w@[0] == '2'); }
        if w@ == seq!['3'] { assert(w@[0] == '3'); }
        if w@ == seq!['4'] { assert(w@[0] == '4'); }
        if w@ == seq!['5'] { assert(w@[0] == '5'); }
        if w@ == seq!['6'] { assert(w@[0] == '6'); }
    }
    r
}

fn check_optional_pattern(p: &Option<String>) -> (r: Result<(), PatternFailure>)
    ensures
        r is Err <==> pattern_fails(opt_view(*p)),
        r matches Err(f) ==> f.text@ == regex_error_text(opt_view(*p)->0),
{
    match p {
        Some(p) => check_pattern(p.as_str()),
        None => Ok(()),
    }
}

/// The issue of the scratchpad at position `i`.
#[verifier::loop_isolation(false)]
fn check_pad(pads: &Vec<(String, ScratchpadConfig)>, i: usize) -> (r: Option<ConfigError>)
    requires
        i < pads@.len(),
    ensures
        match r {
            Some(e) => pad_issue(pads_view(pads@), i as int) == Some(e.issue()),
            None => pad_issue(pads_view(pads@), i as int) is None,
        },
{
    let ghost pv = pads_view(pads@);
    let name = &pads[i].0;
    let pad = &pads[i].1;
    assert(pv[i as int] == (name@, pad@));
    if is_blank_str(name.as_str()) || has_whitespace_str(name.as_str()) {
        return Some(ConfigError::InvalidName { name: name.clone() });
    }
    if is_blank_str(pad.workspace.as_str()) {
        return Some(ConfigError::EmptyWorkspace { name: name.clone() });
    }
    if is_numbered_workspace_str(pad.workspace.as_str()) {
        return Some(ConfigError::ReservedWorkspace { name: name.clone() });
    }
    let mut j: usize = i;
    while j > 0
        invariant
            j <= i,
            i < pads@.len(),
            pv == pads_view(pads@),
            pv[i as int].1.workspace == pad.workspace@,
            last_with_workspace(pv, i as int, pad.workspace@) == last_with_workspace(pv, j as int, pad.workspace@),
        decreases j,
    {
        assert(pv[j - 1] == (pads@[j - 1].0@, pads@[j - 1].1@));
        if pads[j - 1].1.workspace == pad.workspace {
            return Some(ConfigError::SharedWorkspace {
                previous: pads[j - 1].0.clone(),
                name: name.clone(),
                workspace: pad.workspace.clone(),
            });
        }
        j = j - 1;
    }
    if pad.command.len() == 0 && pad.commands.len() == 0 && pad.launch_if_missing {
        return Some(ConfigError::MissingCommand { name: name.clone() });
    }
    let n = pad.commands.len();
    let mut k: usize = 0;
    while k < n
        invariant
            n == pad.commands@.len(),
            k <= n,
            forall|q: int| 0 <= q < k ==> (#[trigger] pad.commands@[q])@.len() > 0,
        decreases n - k,
    {
        if pad.commands[k].len() == 0 {
            assert(pad@.commands[k as int].len() == 0);
            return Some(ConfigError::EmptyCommand { name: name.clone() });
        }
        k = k + 1;
    }
    assert(!has_empty_command(pad@)) by {
        assert forall|q: int| 0 <= q < pad@.commands.len() implies (#[trigger] pad@.commands[q]).len() != 0 by {
            assert(pad.commands@[q]@.len() > 0);
        }
    }
    if let Err(error) = check_optional_pattern(&pad.match_app_id) {
        return Some(ConfigError::InvalidPattern { name: name.clone(), field: PatternField::AppId, error });
    }
    if let Err(error) = check_optional_pattern(&pad.match_title) {
        return Some(ConfigError::InvalidPattern { name: name.clone(), field: PatternField::Title, error });
    }
    if let Err(error) = check_optional_pattern(&pad.initial_focus_app_id) {
        return Some(ConfigError::InvalidPattern {
            name: name.clone(),
            field: PatternField::InitialFocusAppId,
            error,
        });
    }
    None
}

impl Config {
    /// Checks the configuration rules, scratchpad by scratchpad, and reports the first broken
    /// one.
    pub fn validate(&self) -> (r: Result<(), ConfigError>)
        ensures
            r is Ok <==> config_issue(self.pads()) is None,
            r is Ok <==> follows_rules(self.pads()),
            r matches Err(e) ==> config_issue(self.pads()) == Some(e.issue()),
    {
        proof {
            lemma_rules(self.pads());
        }
        let pads = self.scratchpads.entries();
        let n = pads.len();
        if n == 0 {
            return Err(ConfigError::NoScratchpads);
        }
        let ghost pv = self.pads();
        let mut i: usize = 0;
        while i < n
            invariant
                n == pads@.len(),
                pads@ == self.scratchpads.ordered_entries(),
                pv == self.pads(),
                i <= n,
                first_issue_from(pv, 0) == first_issue_from(pv, i as int),
            decreases n - i,
        {
            match check_pad(pads, i) {
                Some(e) => {
                    proof {
                        lemma_rules(pv);
                    }
                    return Err(e);
                },
                None => {},
            }
            i = i + 1;
        }
        Ok(())
    }
}

// ---------------------------------------------------------------------------------------------
// Paths.

/// The environment variables that paths depend on; `None` where a variable is unset.
#[derive(Debug, Clone)]
pub struct Environment {
    pub home: Option<String>,
    pub runtime_dir: Option<String>,
    pub state_home: Option<String>,
    pub config_home: Option<String>,
}

/// Why a path could not be resolved.
#[derive(Debug, Clone, Copy, PartialEq, Eq)]
pub enum PathError {
    /// `XDG_RUNTIME_DIR` is not set.
    RuntimeDirUnset,
    /// Neither `XDG_STATE_HOME` nor `HOME` is set.
    StateDirUnset,
    /// Neither `XDG_CONFIG_HOME` nor `HOME` is set.
    ConfigDirUnset,
}

/// The message of a path that could not be resolved.
pub open spec fn path_error_text(e: PathError) -> Seq<char> {
    match e {
        PathError::RuntimeDirUnset => "XDG_RUNTIME_DIR is not set"@,
        PathError::StateDirUnset => "neither XDG_STATE_HOME nor HOME is set"@,
        PathError::ConfigDirUnset => "neither XDG_CONFIG_HOME nor HOME is set"@,
    }
}

impl PathError {
    pub fn message(&self) -> (r: String)
        ensures
            r@ == path_error_text(*self),
    {
        match self {
            PathError::RuntimeDirUnset => String::from_str("XDG_RUNTIME_DIR is not set"),
            PathError::StateDirUnset => String::from_str("neither XDG_STATE_HOME nor HOME is set"),
            PathError::ConfigDirUnset => String::from_str("neither XDG_CONFIG_HOME nor HOME is set"),
        }
    }
}

pub open spec fn or_empty(o: Option<String>) -> Seq<char> {
    match o {
        Some(s) => s@,
        None => Seq::empty(),
    }
}

/// The value that `${XDG_STATE_HOME}` expands to.
pub open spec fn state_home_text(env: Environment) -> Seq<char> {
    match env.state_home {
        Some(s) => s@,
        None => or_empty(env.home) + "/.local/state"@,
    }
}

/// A configured path with `${HOME}`, then `${XDG_RUNTIME_DIR}`, then `${XDG_STATE_HOME}`
/// replaced; an unset variable expands to the empty text.
pub open spec fn expanded(path: Seq<char>, env: Environment) -> Seq<char> {
    replaced(
        replaced(replaced(path, "${HOME}"@, or_empty(env.home)), "${XDG_RUNTIME_DIR}"@, or_empty(env.runtime_dir)),
        "${XDG_STATE_HOME}"@,
        state_home_text(env),
    )
}

fn text_or_empty(o: &Option<String>) -> (r: String)
    ensures
        r@ == or_empty(*o),
{
    match o {
        Some(s) => s.clone(),
        None => String::new(),
    }
}

pub fn expand_path(path: &str, env: &Environment) -> (r: String)
    ensures
        r@ == expanded(path@, *env),
{
    let home = text_or_empty(&env.home);
    let runtime = text_or_empty(&env.runtime_dir);
    let state = match &env.state_home {
        Some(s) => s.clone(),
        None => home.clone().concat("/.local/state"),
    };
    proof {
        reveal_strlit("${HOME}");
        reveal_strlit("${XDG_RUNTIME_DIR}");
        reveal_strlit("${XDG_STATE_HOME}");
    }
    let a = replace_all(path, "${HOME}", home.as_str());
    let b = replace_all(a.as_str(), "${XDG_RUNTIME_DIR}", runtime.as_str());
    replace_all(b.as_str(), "${XDG_STATE_HOME}", state.as_str())
}

pub open spec fn socket_path_of(daemon: DaemonConfig, env: Environment) -> Result<Seq<char>, PathError> {
    match daemon.socket {
        Some(p) => Ok(expanded(p@, env)),
        None => match env.runtime_dir {
            Some(r) => Ok(joined(r@, "niri-scratch.sock"@)),
            None => Err(PathError::RuntimeDirUnset),
        },
    }
}

pub open spec fn state_path_of(daemon: DaemonConfig, env: Environment) -> Result<Seq<char>, PathError> {
    match daemon.state_file {
        Some(p) => Ok(expanded(p@, env)),
        None => match env.state_home {
            Some(s) => Ok(joined(s@, "niri-scratch/state.json"@)),
            None => match env.home {
                Some(h) => Ok(joined(joined(h@, ".local/state"@), "niri-scratch/state.json"@)),
                None => Err(PathError::StateDirUnset),
            },
        },
    }
}

pub open spec fn config_path_of(env: Environment) -> Result<Seq<char>, PathError> {
    match env.config_home {
        Some(c) => Ok(joined(c@, "niri-scratch/config.toml"@)),
        None => match env.home {
            Some(h) => Ok(joined(joined(h@, ".config"@), "niri-scratch/config.toml"@)),
            None => Err(PathError::ConfigDirUnset),
        },
    }
}

impl Config {
    /// The control socket: the configured path, expanded, or `niri-scratch.sock` in
    /// `XDG_RUNTIME_DIR`.
    pub fn socket_path(&self, env: &Environment) -> (r: Result<String, PathError>)
        ensures
            match r {
                Ok(p) => socket_path_of(self.daemon, *env) == Ok::<Seq<char>, PathError>(p@),
                Err(e) => socket_path_of(self.daemon, *env) == Err::<Seq<char>, PathError>(e),
            },
    {
        match &self.daemon.socket {
            Some(p) => Ok(expand_path(p.as_str(), env)),
            None => match &env.runtime_dir {
                Some(r) => Ok(join_path(r.as_str(), "niri-scratch.sock")),
                None => Err(PathError::RuntimeDirUnset),
            },
        }
    }

    /// The state file: the configured path, expanded, or `niri-scratch/state.json` under
    /// `XDG_STATE_HOME`, or under `$HOME/.local/state`.
    pub fn state_path(&self, env: &Environment) -> (r: Result<String, PathError>)
        ensures
            match r {
                Ok(p) => state_path_of(self.daemon, *env) == Ok::<Seq<char>, PathError>(p@),
                Err(e) => state_path_of(self.daemon, *env) == Err::<Seq<char>, PathError>(e),
            },
    {
        match &self.daemon.state_file {
            Some(p) => Ok(expand_path(p.as_str(), env)),
            None => match &env.state_home {
                Some(s) => Ok(join_path(s.as_str(), "niri-scratch/state.json")),
                None => match &env.home {
                    Some(h) => {
                        let root = join_path(h.as_str(), ".local/state");
                        Ok(join_path(root.as_str(), "niri-scratch/state.json"))
                    },
                    None => Err(PathError::StateDirUnset),
                },
            },
        }
    }
}

/// The configuration file: `niri-scratch/config.toml` under `XDG_CONFIG_HOME`, or under
/// `$HOME/.config`.
pub fn default_config_path(env: &Environment) -> (r: Result<String, PathError>)
    ensures
        match r {
            Ok(p) => config_path_of(*env) == Ok::<Seq<char>, PathError>(p@),
            Err(e) => config_path_of(*env) == Err::<Seq<char>, PathError>(e),
        },
{
    match &env.config_home {
        Some(c) => Ok(join_path(c.as_str(), "niri-scratch/config.toml")),
        None => match &env.home {
            Some(h) => {
                let root = join_path(h.as_str(), ".config");
                Ok(join_path(root.as_str(), "niri-scratch/config.toml"))
            },
            None => Err(PathError::ConfigDirUnset),
        },
    }
}

} // verus!
