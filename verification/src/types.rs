//! Core domain types: configuration and its layering, actions and plans,
//! observed repository state, command arguments, and list rows.
use vstd::prelude::*;
use indexmap::IndexMap;
use crate::hookgroup::{entries_overlay, law_overlay_lookup, lookup, map_clone, map_entries, map_new, map_overlay};
use crate::strmap::StrMap;
use crate::text::concat;

verus! {

/// Default worktree-path template: workspaces live as siblings of the
/// repository root.
pub const DEFAULT_WORKTREE_PATH_TEMPLATE: &'static str = "{{ repo_path }}/../{{ repo }}.{{ branch | sanitize }}";

/// Ordered map of hook name to command template within a single group.
pub type HookGroup = IndexMap<String, String>;

/// Entries of a hook group or alias table, in order.
pub type Entries = Seq<(Seq<char>, Seq<char>)>;

/// Errors of planning and configuration.
#[derive(Debug)]
pub enum CoreError {
    /// TOML configuration could not be parsed.
    ConfigParse(String),
    /// Template rendering failed.
    TemplateRender(String),
    /// Named hook does not exist in any configured hook group.
    HookNotFound(String),
    /// Named hook appears in more than one hook group.
    HookAmbiguous(String),
    /// A workspace with this name is already registered.
    WorkspaceExists(String),
    /// Target path exists on disk; `--clobber` removes it.
    TargetPathOccupied(String),
    /// Target path is nested inside another workspace's directory.
    TargetPathInsideOtherWorkspace(String),
    /// No workspace with this name is registered.
    WorkspaceMissing(String),
    /// Workspace has uncommitted changes and `--force` was not given.
    WorkspaceDirty(String),
    /// Bookmark is not merged into trunk and forced deletion was not asked for.
    BookmarkUnmerged(String),
    /// Current directory is not inside a jj repository.
    NotJjRepo,
    /// No alias with this name exists in the configuration.
    AliasNotFound(String),
}

/// What an error says, as text.
pub enum ErrView {
    ConfigParse(Seq<char>),
    TemplateRender(Seq<char>),
    HookNotFound(Seq<char>),
    HookAmbiguous(Seq<char>),
    WorkspaceExists(Seq<char>),
    TargetPathOccupied(Seq<char>),
    TargetPathInsideOtherWorkspace(Seq<char>),
    WorkspaceMissing(Seq<char>),
    WorkspaceDirty(Seq<char>),
    BookmarkUnmerged(Seq<char>),
    NotJjRepo,
    AliasNotFound(Seq<char>),
}

impl CoreError {
    /// What this error says.
    pub open spec fn view(&self) -> ErrView {
        match self {
            CoreError::ConfigParse(s) => ErrView::ConfigParse(s@),
            CoreError::TemplateRender(s) => ErrView::TemplateRender(s@),
            CoreError::HookNotFound(s) => ErrView::HookNotFound(s@),
            CoreError::HookAmbiguous(s) => ErrView::HookAmbiguous(s@),
            CoreError::WorkspaceExists(s) => ErrView::WorkspaceExists(s@),
            CoreError::TargetPathOccupied(s) => ErrView::TargetPathOccupied(s@),
            CoreError::TargetPathInsideOtherWorkspace(s) => ErrView::TargetPathInsideOtherWorkspace(s@),
            CoreError::WorkspaceMissing(s) => ErrView::WorkspaceMissing(s@),
            CoreError::WorkspaceDirty(s) => ErrView::WorkspaceDirty(s@),
            CoreError::BookmarkUnmerged(s) => ErrView::BookmarkUnmerged(s@),
            CoreError::NotJjRepo => ErrView::NotJjRepo,
            CoreError::AliasNotFound(s) => ErrView::AliasNotFound(s@),
        }
    }
}

/// The message an error is shown with.
pub open spec fn error_message(e: ErrView) -> Seq<char> {
    match e {
        ErrView::ConfigParse(s) => "config parse error: "@ + s,
        ErrView::TemplateRender(s) => "template render error: "@ + s,
        ErrView::HookNotFound(s) => "hook '"@ + s + "' not found in config"@,
        ErrView::HookAmbiguous(s) => "hook '"@ + s + "' is ambiguous: appears in multiple groups"@,
        ErrView::WorkspaceExists(s) => "workspace '"@ + s + "' already exists"@,
        ErrView::TargetPathOccupied(s) => "path '"@ + s
            + "' already exists at the target workspace location (use --clobber to remove it)"@,
        ErrView::TargetPathInsideOtherWorkspace(s) => "path '"@ + s
            + "' is inside another workspace and cannot be clobbered"@,
        ErrView::WorkspaceMissing(s) => "workspace '"@ + s + "' does not exist"@,
        ErrView::WorkspaceDirty(s) => "workspace '"@ + s + "' has uncommitted changes (use --force)"@,
        ErrView::BookmarkUnmerged(s) => "bookmark '"@ + s + "' is not fully merged into trunk (use --force)"@,
        ErrView::NotJjRepo => "not inside a jj repo"@,
        ErrView::AliasNotFound(s) => "alias '"@ + s + "' not found in config"@,
    }
}

impl CoreError {
    /// The message this error is shown with.
    pub fn to_string(&self) -> (r: String)
        ensures
            r@ == error_message(self.view()),
    {
        let r = match self {
            CoreError::ConfigParse(s) => concat("config parse error: ", s.as_str()),
            CoreError::TemplateRender(s) => concat("template render error: ", s.as_str()),
            CoreError::HookNotFound(s) => concat(
                concat("hook '", s.as_str()).as_str(),
                "' not found in config",
            ),
            CoreError::HookAmbiguous(s) => concat(
                concat("hook '", s.as_str()).as_str(),
                "' is ambiguous: appears in multiple groups",
            ),
            CoreError::WorkspaceExists(s) => concat(
                concat("workspace '", s.as_str()).as_str(),
                "' already exists",
            ),
            CoreError::TargetPathOccupied(s) => concat(
                concat("path '", s.as_str()).as_str(),
                "' already exists at the target workspace location (use --clobber to remove it)",
            ),
            CoreError::TargetPathInsideOtherWorkspace(s) => concat(
                concat("path '", s.as_str()).as_str(),
                "' is inside another workspace and cannot be clobbered",
            ),
            CoreError::WorkspaceMissing(s) => concat(
                concat("workspace '", s.as_str()).as_str(),
                "' does not exist",
            ),
            CoreError::WorkspaceDirty(s) => concat(
                concat("workspace '", s.as_str()).as_str(),
                "' has uncommitted changes (use --force)",
            ),
            CoreError::BookmarkUnmerged(s) => concat(
                concat("bookmark '", s.as_str()).as_str(),
                "' is not fully merged into trunk (use --force)",
            ),
            CoreError::NotJjRepo => "not inside a jj repo".to_owned(),
            CoreError::AliasNotFound(s) => concat(
                concat("alias '", s.as_str()).as_str(),
                "' not found in config",
            ),
        };
        r
    }
}

/// Settings of the `list` subcommand.
pub struct ListConfig {
    /// Template rendered into a URL column for each workspace.
    pub url: String,
    /// Enable generated one-line summaries in `list --full`.
    pub summary: Option<bool>,
}

impl ListConfig {
    /// A copy of these settings.
    pub fn duplicate(&self) -> (r: Self)
        ensures
            r == *self,
    {
        ListConfig { url: self.url.clone(), summary: self.summary }
    }
}

/// How commit messages are generated by an external command.
pub struct CommitGenerationConfig {
    /// Shell command that reads a prompt on stdin and writes a message.
    pub command: Option<String>,
    /// Template of the prompt; a built-in default when absent.
    pub template: Option<String>,
    /// Text appended to the default template (ignored when `template` is set).
    pub template_append: Option<String>,
}

fn copy_opt(s: &Option<String>) -> (r: Option<String>)
    ensures
        r == *s,
{
    match s {
        Some(t) => Some(t.clone()),
        None => None,
    }
}

impl CommitGenerationConfig {
    /// A copy of these settings.
    pub fn duplicate(&self) -> (r: Self)
        ensures
            r == *self,
    {
        CommitGenerationConfig {
            command: copy_opt(&self.command),
            template: copy_opt(&self.template),
            template_append: copy_opt(&self.template_append),
        }
    }
}

/// Commit-message generation settings.
pub struct CommitConfig {
    /// Settings of the generation command and its prompt.
    pub generation: Option<CommitGenerationConfig>,
}

impl CommitConfig {
    /// A copy of these settings.
    pub fn duplicate(&self) -> (r: Self)
        ensures
            r == *self,
    {
        CommitConfig {
            generation: match &self.generation {
                Some(g) => Some(g.duplicate()),
                None => None,
            },
        }
    }
}

fn copy_list(l: &Option<ListConfig>) -> (r: Option<ListConfig>)
    ensures
        r == *l,
{
    match l {
        Some(x) => Some(x.duplicate()),
        None => None,
    }
}

fn copy_commit(c: &Option<CommitConfig>) -> (r: Option<CommitConfig>)
    ensures
        r == *c,
{
    match c {
        Some(x) => Some(x.duplicate()),
        None => None,
    }
}

/// Top-level configuration of one `wt.toml` file.
pub struct Config {
    /// Settings for `list`.
    pub list: Option<ListConfig>,
    /// Hooks run before switching to a workspace.
    pub pre_switch: Vec<HookGroup>,
    /// Hooks run after switching to a workspace.
    pub post_switch: Vec<HookGroup>,
    /// Hooks run before a workspace is created.
    pub pre_start: Vec<HookGroup>,
    /// Hooks run after a workspace is created.
    pub post_start: Vec<HookGroup>,
    /// Hooks run before a workspace is removed.
    pub pre_remove: Vec<HookGroup>,
    /// Hooks run after a workspace is removed.
    pub post_remove: Vec<HookGroup>,
    /// When true, directory deletion runs in the background.
    pub background_remove: Option<bool>,
    /// Custom subcommands: name to command template.
    pub aliases: IndexMap<String, String>,
    /// Template of workspace directory paths.
    pub worktree_path_template: Option<String>,
    /// Commit-message generation settings.
    pub commit: Option<CommitConfig>,
    /// Per-project overrides in the user config, keyed by repository
    /// identity (keys are unique).
    pub projects: Vec<(String, Config)>,
}

/// Position of the first entry keyed `k` at or after `from`, or -1.
pub open spec fn first_key_pos<V>(s: Seq<(String, V)>, k: Seq<char>, from: int) -> int
    decreases s.len() - from,
{
    if from < 0 || from >= s.len() {
        -1
    } else if s[from].0@ == k {
        from
    } else {
        first_key_pos(s, k, from + 1)
    }
}

/// The entries of each group of a hook slot.
pub open spec fn groups_view(gs: Seq<HookGroup>) -> Seq<Entries> {
    gs.map_values(|g: HookGroup| map_entries(g))
}

/// What of one configuration layer takes part in merging.
pub struct LayerView {
    pub list: Option<ListConfig>,
    pub pre_switch: Seq<Entries>,
    pub post_switch: Seq<Entries>,
    pub pre_start: Seq<Entries>,
    pub post_start: Seq<Entries>,
    pub pre_remove: Seq<Entries>,
    pub post_remove: Seq<Entries>,
    pub background_remove: Option<bool>,
    pub aliases: Entries,
    pub worktree_path_template: Option<Seq<char>>,
    pub commit: Option<CommitConfig>,
}

/// The layer a missing configuration stands for.
pub open spec fn empty_layer() -> LayerView {
    LayerView {
        list: None,
        pre_switch: seq![],
        post_switch: seq![],
        pre_start: seq![],
        post_start: seq![],
        pre_remove: seq![],
        post_remove: seq![],
        background_remove: None,
        aliases: seq![],
        worktree_path_template: None,
        commit: None,
    }
}

impl Config {
    /// What of this configuration takes part in merging.
    pub open spec fn layer(&self) -> LayerView {
        LayerView {
            list: self.list,
            pre_switch: groups_view(self.pre_switch@),
            post_switch: groups_view(self.post_switch@),
            pre_start: groups_view(self.pre_start@),
            post_start: groups_view(self.post_start@),
            pre_remove: groups_view(self.pre_remove@),
            post_remove: groups_view(self.post_remove@),
            background_remove: self.background_remove,
            aliases: map_entries(self.aliases),
            worktree_path_template: match self.worktree_path_template {
                Some(t) => Some(t@),
                None => None,
            },
            commit: self.commit,
        }
    }

    /// An empty configuration.
    pub fn default() -> (r: Self)
        ensures
            r.layer() == empty_layer(),
            r.projects@.len() == 0,
    {
        let r = Config {
            list: None,
            pre_switch: Vec::new(),
            post_switch: Vec::new(),
            pre_start: Vec::new(),
            post_start: Vec::new(),
            pre_remove: Vec::new(),
            post_remove: Vec::new(),
            background_remove: None,
            aliases: map_new(),
            worktree_path_template: None,
            commit: None,
            projects: Vec::new(),
        };
        assert(groups_view(r.pre_switch@) =~= seq![]);
        assert(groups_view(r.post_switch@) =~= seq![]);
        assert(groups_view(r.pre_start@) =~= seq![]);
        assert(groups_view(r.post_start@) =~= seq![]);
        assert(groups_view(r.pre_remove@) =~= seq![]);
        assert(groups_view(r.post_remove@) =~= seq![]);
        r
    }

    /// Position of the first per-project override keyed `id`, or -1.
    pub open spec fn project_pos(&self, id: Seq<char>) -> int {
        first_key_pos(self.projects@, id, 0)
    }

    /// The per-project override keyed `id`, if any.
    pub fn project(&self, id: &str) -> (r: Option<&Config>)
        ensures
            match r {
                Some(c) => self.project_pos(id@) >= 0 && *c == self.projects@[self.project_pos(id@)].1,
                None => self.project_pos(id@) < 0,
            },
    {
        let mut i: usize = 0;
        while i < self.projects.len()
            invariant
                i <= self.projects@.len(),
                first_key_pos(self.projects@, id@, i as int) == first_key_pos(self.projects@, id@, 0),
            decreases self.projects@.len() - i,
        {
            if crate::text::str_eq(self.projects[i].0.as_str(), id) {
                return Some(&self.projects[i].1);
            }
            i = i + 1;
        }
        None
    }

    /// The (hook type, groups) pairs of every hook slot, in lifecycle order.
    pub fn all_hook_groups(&self) -> (r: Vec<(&'static str, &[HookGroup])>)
        ensures
            r@.len() == 6,
            r@[0].0@ == hook_type_name(0) && r@[0].1@ == self.pre_switch@,
            r@[1].0@ == hook_type_name(1) && r@[1].1@ == self.post_switch@,
            r@[2].0@ == hook_type_name(2) && r@[2].1@ == self.pre_start@,
            r@[3].0@ == hook_type_name(3) && r@[3].1@ == self.post_start@,
            r@[4].0@ == hook_type_name(4) && r@[4].1@ == self.pre_remove@,
            r@[5].0@ == hook_type_name(5) && r@[5].1@ == self.post_remove@,
    {
        let mut r: Vec<(&'static str, &[HookGroup])> = Vec::new();
        r.push(("pre-switch", self.pre_switch.as_slice()));
        r.push(("post-switch", self.post_switch.as_slice()));
        r.push(("pre-start", self.pre_start.as_slice()));
        r.push(("post-start", self.post_start.as_slice()));
        r.push(("pre-remove", self.pre_remove.as_slice()));
        r.push(("post-remove", self.post_remove.as_slice()));
        proof {
            lemma_hook_type_names();
        }
        r
    }
}

/// Name of hook slot `i`, in lifecycle order.
pub open spec fn hook_type_name(i: int) -> Seq<char> {
    if i == 0 {
        seq!['p', 'r', 'e', '-', 's', 'w', 'i', 't', 'c', 'h']
    } else if i == 1 {
        seq!['p', 'o', 's', 't', '-', 's', 'w', 'i', 't', 'c', 'h']
    } else if i == 2 {
        seq!['p', 'r', 'e', '-', 's', 't', 'a', 'r', 't']
    } else if i == 3 {
        seq!['p', 'o', 's', 't', '-', 's', 't', 'a', 'r', 't']
    } else if i == 4 {
        seq!['p', 'r', 'e', '-', 'r', 'e', 'm', 'o', 'v', 'e']
    } else {
        seq!['p', 'o', 's', 't', '-', 'r', 'e', 'm', 'o', 'v', 'e']
    }
}

/// The literals naming the hook slots read as `hook_type_name`.
pub proof fn lemma_hook_type_names()
    ensures
        "pre-switch"@ == hook_type_name(0),
        "post-switch"@ == hook_type_name(1),
        "pre-start"@ == hook_type_name(2),
        "post-start"@ == hook_type_name(3),
        "pre-remove"@ == hook_type_name(4),
        "post-remove"@ == hook_type_name(5),
{
    reveal_strlit("pre-switch");
    reveal_strlit("post-switch");
    reveal_strlit("pre-start");
    reveal_strlit("post-start");
    reveal_strlit("pre-remove");
    reveal_strlit("post-remove");
}

/// Which configuration layer a hook came from.
#[derive(Debug, Clone, Copy, PartialEq, Eq, Structural)]
pub enum HookSource {
    /// Defined in the user-level config.
    User,
    /// Defined in the project-level config.
    Project,
}

impl HookSource {
    /// `user` or `project`.
    pub open spec fn name(self) -> Seq<char> {
        match self {
            HookSource::User => seq!['u', 's', 'e', 'r'],
            HookSource::Project => seq!['p', 'r', 'o', 'j', 'e', 'c', 't'],
        }
    }

    /// The source as it is shown: `user` or `project`.
    pub fn to_string(&self) -> (r: String)
        ensures
            r@ == self.name(),
    {
        proof {
            reveal_strlit("user");
            reveal_strlit("project");
        }
        match self {
            HookSource::User => "user".to_owned(),
            HookSource::Project => "project".to_owned(),
        }
    }
}

/// A hook group with the layer it came from.
pub struct SourcedHookGroup {
    /// Whether the group came from the user or the project config.
    pub source: HookSource,
    /// Ordered map of hook name to command template.
    pub group: HookGroup,
}

/// The source and entries of each group of a slot.
pub open spec fn sourced_view(gs: Seq<SourcedHookGroup>) -> Seq<(HookSource, Entries)> {
    gs.map_values(|g: SourcedHookGroup| (g.source, map_entries(g.group)))
}

/// User groups tagged `User`, then project groups tagged `Project`.
pub open spec fn merged_groups(user: Seq<Entries>, project: Seq<Entries>) -> Seq<(HookSource, Entries)> {
    user.map_values(|g: Entries| (HookSource::User, g)) + project.map_values(
        |g: Entries| (HookSource::Project, g),
    )
}

/// The six hook lifecycle slots.
pub struct HookSet<T> {
    /// Hooks fired before switching workspaces.
    pub pre_switch: Vec<T>,
    /// Hooks fired after switching workspaces.
    pub post_switch: Vec<T>,
    /// Hooks fired before creating a workspace.
    pub pre_start: Vec<T>,
    /// Hooks fired after creating a workspace.
    pub post_start: Vec<T>,
    /// Hooks fired before removing a workspace.
    pub pre_remove: Vec<T>,
    /// Hooks fired after removing a workspace.
    pub post_remove: Vec<T>,
}

impl<T> HookSet<T> {
    /// Six empty slots.
    pub fn default() -> (r: Self)
        ensures
            r.pre_switch@.len() == 0 && r.post_switch@.len() == 0 && r.pre_start@.len() == 0,
            r.post_start@.len() == 0 && r.pre_remove@.len() == 0 && r.post_remove@.len() == 0,
    {
        HookSet {
            pre_switch: Vec::new(),
            post_switch: Vec::new(),
            pre_start: Vec::new(),
            post_start: Vec::new(),
            pre_remove: Vec::new(),
            post_remove: Vec::new(),
        }
    }

    /// The (hook type, groups) pairs of every slot, in lifecycle order.
    pub fn all_groups(&self) -> (r: [(&'static str, &[T]); 6])
        ensures
            r@[0].0@ == hook_type_name(0) && r@[0].1@ == self.pre_switch@,
            r@[1].0@ == hook_type_name(1) && r@[1].1@ == self.post_switch@,
            r@[2].0@ == hook_type_name(2) && r@[2].1@ == self.pre_start@,
            r@[3].0@ == hook_type_name(3) && r@[3].1@ == self.post_start@,
            r@[4].0@ == hook_type_name(4) && r@[4].1@ == self.pre_remove@,
            r@[5].0@ == hook_type_name(5) && r@[5].1@ == self.post_remove@,
    {
        proof {
            lemma_hook_type_names();
        }
        [
            ("pre-switch", self.pre_switch.as_slice()),
            ("post-switch", self.post_switch.as_slice()),
            ("pre-start", self.pre_start.as_slice()),
            ("post-start", self.post_start.as_slice()),
            ("pre-remove", self.pre_remove.as_slice()),
            ("post-remove", self.post_remove.as_slice()),
        ]
    }
}

fn merge_groups(user: &Vec<HookGroup>, project: &Vec<HookGroup>) -> (r: Vec<SourcedHookGroup>)
    ensures
        sourced_view(r@) == merged_groups(groups_view(user@), groups_view(project@)),
{
    let mut out: Vec<SourcedHookGroup> = Vec::new();
    let mut i: usize = 0;
    while i < user.len()
        invariant
            i <= user@.len(),
            sourced_view(out@) == groups_view(user@.take(i as int)).map_values(
                |g: Entries| (HookSource::User, g),
            ),
        decreases user@.len() - i,
    {
        let ghost prev = out@;
        let g = map_clone(&user[i]);
        out.push(SourcedHookGroup { source: HookSource::User, group: g });
        assert(sourced_view(out@) =~= sourced_view(prev).push((HookSource::User, map_entries(user@[i as int]))));
        assert(groups_view(user@.take(i + 1)) =~= groups_view(user@.take(i as int)).push(map_entries(user@[i as int])));
        i = i + 1;
        assert(sourced_view(out@) =~= groups_view(user@.take(i as int)).map_values(
            |g: Entries| (HookSource::User, g),
        ));
    }
    assert(user@.take(user@.len() as int) =~= user@);
    let ghost head = sourced_view(out@);
    let mut j: usize = 0;
    while j < project.len()
        invariant
            j <= project@.len(),
            head == groups_view(user@).map_values(|g: Entries| (HookSource::User, g)),
            sourced_view(out@) == head + groups_view(project@.take(j as int)).map_values(
                |g: Entries| (HookSource::Project, g),
            ),
        decreases project@.len() - j,
    {
        let ghost prev = out@;
        let g = map_clone(&project[j]);
        out.push(SourcedHookGroup { source: HookSource::Project, group: g });
        assert(sourced_view(out@) =~= sourced_view(prev).push((HookSource::Project, map_entries(project@[j as int]))));
        assert(groups_view(project@.take(j + 1)) =~= groups_view(project@.take(j as int)).push(map_entries(project@[j as int])));
        j = j + 1;
        assert(sourced_view(out@) =~= head + groups_view(project@.take(j as int)).map_values(
            |g: Entries| (HookSource::Project, g),
        ));
    }
    assert(project@.take(project@.len() as int) =~= project@);
    out
}

fn raw_groups(gs: &Vec<SourcedHookGroup>) -> (r: Vec<HookGroup>)
    ensures
        groups_view(r@) == sourced_view(gs@).map_values(|p: (HookSource, Entries)| p.1),
{
    let mut out: Vec<HookGroup> = Vec::new();
    let mut i: usize = 0;
    while i < gs.len()
        invariant
            i <= gs@.len(),
            groups_view(out@) == sourced_view(gs@.take(i as int)).map_values(
                |p: (HookSource, Entries)| p.1,
            ),
        decreases gs@.len() - i,
    {
        let ghost prev = out@;
        let g = map_clone(&gs[i].group);
        out.push(g);
        assert(groups_view(out@) =~= groups_view(prev).push(map_entries(gs@[i as int].group)));
        assert(sourced_view(gs@.take(i + 1)) =~= sourced_view(gs@.take(i as int)).push((gs@[i as int].source, map_entries(gs@[i as int].group))));
        i = i + 1;
        assert(groups_view(out@) =~= sourced_view(gs@.take(i as int)).map_values(
            |p: (HookSource, Entries)| p.1,
        ));
    }
    assert(gs@.take(gs@.len() as int) =~= gs@);
    out
}

/// User and project configuration merged into the effective one.
pub struct MergedConfig {
    /// `list` settings.
    pub list: Option<ListConfig>,
    /// The six hook slots, each group tagged with its layer.
    pub hooks: HookSet<SourcedHookGroup>,
    /// Whether directory deletion runs in the background.
    pub background_remove: Option<bool>,
    /// Custom subcommand aliases (name to template).
    pub aliases: IndexMap<String, String>,
    /// Template of workspace directory paths; always set, the default one
    /// when neither layer gives one.
    pub worktree_path_template: String,
    /// Commit-message generation settings.
    pub commit: Option<CommitConfig>,
}

/// What a merged configuration holds.
pub struct MergedView {
    pub list: Option<ListConfig>,
    pub pre_switch: Seq<(HookSource, Entries)>,
    pub post_switch: Seq<(HookSource, Entries)>,
    pub pre_start: Seq<(HookSource, Entries)>,
    pub post_start: Seq<(HookSource, Entries)>,
    pub pre_remove: Seq<(HookSource, Entries)>,
    pub post_remove: Seq<(HookSource, Entries)>,
    pub background_remove: Option<bool>,
    pub aliases: Entries,
    pub worktree_path_template: Seq<char>,
    pub commit: Option<CommitConfig>,
}

/// `DEFAULT_WORKTREE_PATH_TEMPLATE`, as text.
pub open spec fn default_template() -> Seq<char> {
    DEFAULT_WORKTREE_PATH_TEMPLATE@
}

/// `p` when it is set, `u` otherwise.
pub open spec fn or_else<A>(p: Option<A>, u: Option<A>) -> Option<A> {
    match p {
        Some(x) => Some(x),
        None => u,
    }
}

/// Merging two layers: scalars from the project when set, else the user;
/// aliases with project entries overriding per key; hooks of the user first,
/// then the project's.
pub open spec fn merge_layers(u: LayerView, p: LayerView) -> MergedView {
    MergedView {
        list: or_else(p.list, u.list),
        pre_switch: merged_groups(u.pre_switch, p.pre_switch),
        post_switch: merged_groups(u.post_switch, p.post_switch),
        pre_start: merged_groups(u.pre_start, p.pre_start),
        post_start: merged_groups(u.post_start, p.post_start),
        pre_remove: merged_groups(u.pre_remove, p.pre_remove),
        post_remove: merged_groups(u.post_remove, p.post_remove),
        background_remove: or_else(p.background_remove, u.background_remove),
        aliases: entries_overlay(u.aliases, p.aliases),
        worktree_path_template: match or_else(p.worktree_path_template, u.worktree_path_template) {
            Some(t) => t,
            None => default_template(),
        },
        commit: or_else(p.commit, u.commit),
    }
}

/// Merging layers, aliases: a key the project defines maps to the
/// project's template; a key only the user defines keeps the user's; a key
/// neither defines is absent.
pub proof fn law_merged_aliases(u: LayerView, p: LayerView, k: Seq<char>)
    ensures
        lookup(p.aliases, k) is Some ==> lookup(merge_layers(u, p).aliases, k) == lookup(p.aliases, k),
        lookup(p.aliases, k) is None ==> lookup(merge_layers(u, p).aliases, k) == lookup(u.aliases, k),
{
    law_overlay_lookup(u.aliases, p.aliases, k);
}

/// A merged configuration read back as a layer, without sources.
pub open spec fn lossy_layer(m: MergedView) -> LayerView {
    LayerView {
        list: m.list,
        pre_switch: m.pre_switch.map_values(|p: (HookSource, Entries)| p.1),
        post_switch: m.post_switch.map_values(|p: (HookSource, Entries)| p.1),
        pre_start: m.pre_start.map_values(|p: (HookSource, Entries)| p.1),
        post_start: m.post_start.map_values(|p: (HookSource, Entries)| p.1),
        pre_remove: m.pre_remove.map_values(|p: (HookSource, Entries)| p.1),
        post_remove: m.post_remove.map_values(|p: (HookSource, Entries)| p.1),
        background_remove: m.background_remove,
        aliases: m.aliases,
        worktree_path_template: Some(m.worktree_path_template),
        commit: m.commit,
    }
}

/// The layer an optional configuration stands for.
pub open spec fn layer_of(c: Option<&Config>) -> LayerView {
    match c {
        Some(c) => c.layer(),
        None => empty_layer(),
    }
}

impl MergedConfig {
    /// What this merged configuration holds.
    pub open spec fn view(&self) -> MergedView {
        MergedView {
            list: self.list,
            pre_switch: sourced_view(self.hooks.pre_switch@),
            post_switch: sourced_view(self.hooks.post_switch@),
            pre_start: sourced_view(self.hooks.pre_start@),
            post_start: sourced_view(self.hooks.post_start@),
            pre_remove: sourced_view(self.hooks.pre_remove@),
            post_remove: sourced_view(self.hooks.post_remove@),
            background_remove: self.background_remove,
            aliases: map_entries(self.aliases),
            worktree_path_template: self.worktree_path_template@,
            commit: self.commit,
        }
    }

    /// No hooks, no aliases, the default worktree-path template.
    pub fn default() -> (r: Self)
        ensures
            r.view() == merge_layers(empty_layer(), empty_layer()),
    {
        let r = MergedConfig {
            list: None,
            hooks: HookSet::default(),
            background_remove: None,
            aliases: map_new(),
            worktree_path_template: DEFAULT_WORKTREE_PATH_TEMPLATE.to_owned(),
            commit: None,
        };
        let ghost e: Seq<(HookSource, Entries)> = seq![];
        assert(sourced_view(r.hooks.pre_switch@) =~= e);
        assert(sourced_view(r.hooks.post_switch@) =~= e);
        assert(sourced_view(r.hooks.pre_start@) =~= e);
        assert(sourced_view(r.hooks.post_start@) =~= e);
        assert(sourced_view(r.hooks.pre_remove@) =~= e);
        assert(sourced_view(r.hooks.post_remove@) =~= e);
        assert(merged_groups(seq![], seq![]) =~= e);
        assert(r.view() =~= merge_layers(empty_layer(), empty_layer()));
        r
    }

    /// Merge a user config (defaults) and a project config (overrides):
    /// scalars from the project when present, else the user; aliases with
    /// project entries overriding per key; user hooks first, then project
    /// hooks.
    pub fn from_layers(user: Option<&Config>, project: Option<&Config>) -> (r: Self)
        ensures
            r.view() == merge_layers(layer_of(user), layer_of(project)),
    {
        let empty = Config::default();
        let u: &Config = match user {
            Some(c) => c,
            None => &empty,
        };
        let p: &Config = match project {
            Some(c) => c,
            None => &empty,
        };
        let hooks = HookSet {
            pre_switch: merge_groups(&u.pre_switch, &p.pre_switch),
            post_switch: merge_groups(&u.post_switch, &p.post_switch),
            pre_start: merge_groups(&u.pre_start, &p.pre_start),
            post_start: merge_groups(&u.post_start, &p.post_start),
            pre_remove: merge_groups(&u.pre_remove, &p.pre_remove),
            post_remove: merge_groups(&u.post_remove, &p.post_remove),
        };
        let list = if p.list.is_some() { copy_list(&p.list) } else { copy_list(&u.list) };
        let background_remove = if p.background_remove.is_some() {
            p.background_remove
        } else {
            u.background_remove
        };
        let worktree_path_template = match &p.worktree_path_template {
            Some(t) => t.clone(),
            None => match &u.worktree_path_template {
                Some(t) => t.clone(),
                None => DEFAULT_WORKTREE_PATH_TEMPLATE.to_owned(),
            },
        };
        let commit = if p.commit.is_some() { copy_commit(&p.commit) } else { copy_commit(&u.commit) };
        let aliases = map_overlay(map_clone(&u.aliases), &p.aliases);
        let r = MergedConfig { list, hooks, background_remove, aliases, worktree_path_template, commit };
        assert(r.view() =~= merge_layers(layer_of(user), layer_of(project)));
        r
    }

    /// Convert back to a plain configuration, without sources, for a further
    /// merge.
    fn to_config_lossy(&self) -> (r: Config)
        ensures
            r.layer() == lossy_layer(self.view()),
    {
        let r = Config {
            list: copy_list(&self.list),
            pre_switch: raw_groups(&self.hooks.pre_switch),
            post_switch: raw_groups(&self.hooks.post_switch),
            pre_start: raw_groups(&self.hooks.pre_start),
            post_start: raw_groups(&self.hooks.post_start),
            pre_remove: raw_groups(&self.hooks.pre_remove),
            post_remove: raw_groups(&self.hooks.post_remove),
            background_remove: self.background_remove,
            aliases: map_clone(&self.aliases),
            worktree_path_template: Some(self.worktree_path_template.clone()),
            commit: copy_commit(&self.commit),
            projects: Vec::new(),
        };
        assert(r.layer() =~= lossy_layer(self.view()));
        r
    }

    /// Merge with the per-project override of the user config: user defaults,
    /// then the user's `projects` entry for `project_id`, then the project
    /// config.
    pub fn from_layers_with_project_id(
        user: Option<&Config>,
        project_id: Option<&str>,
        project: Option<&Config>,
    ) -> (r: Self)
        ensures
            r.view() == match (user, project_id) {
                (Some(u), Some(id)) if u.project_pos(id@) >= 0 => merge_layers(
                    lossy_layer(merge_layers(layer_of(user), u.projects@[u.project_pos(id@)].1.layer())),
                    layer_of(project),
                ),
                _ => merge_layers(layer_of(user), layer_of(project)),
            },
    {
        let project_override: Option<&Config> = match (user, project_id) {
            (Some(u), Some(id)) => u.project(id),
            _ => None,
        };
        match project_override {
            Some(po) => {
                let base = Self::from_layers(user, Some(po));
                let base_cfg = base.to_config_lossy();
                Self::from_layers(Some(&base_cfg), project)
            },
            None => Self::from_layers(user, project),
        }
    }

    /// A single configuration taken as the project layer.
    pub fn from_project(cfg: Config) -> (r: Self)
        ensures
            r.view() == merge_layers(empty_layer(), cfg.layer()),
    {
        Self::from_layers(None, Some(&cfg))
    }

    /// The (hook type, groups) pairs of every hook slot, in lifecycle order.
    pub fn all_hook_groups(&self) -> (r: [(&'static str, &[SourcedHookGroup]); 6])
        ensures
            r@[0].0@ == hook_type_name(0) && r@[0].1@ == self.hooks.pre_switch@,
            r@[1].0@ == hook_type_name(1) && r@[1].1@ == self.hooks.post_switch@,
            r@[2].0@ == hook_type_name(2) && r@[2].1@ == self.hooks.pre_start@,
            r@[3].0@ == hook_type_name(3) && r@[3].1@ == self.hooks.post_start@,
            r@[4].0@ == hook_type_name(4) && r@[4].1@ == self.hooks.pre_remove@,
            r@[5].0@ == hook_type_name(5) && r@[5].1@ == self.hooks.post_remove@,
    {
        self.hooks.all_groups()
    }
}

/// Layering: a scalar set in the project layer wins; otherwise the user's
/// value (or the built-in default template) stands.
pub proof fn law_project_scalars_win(u: LayerView, p: LayerView)
    ensures
        p.list.is_some() ==> merge_layers(u, p).list == p.list,
        p.list.is_none() ==> merge_layers(u, p).list == u.list,
        p.background_remove.is_some() ==> merge_layers(u, p).background_remove == p.background_remove,
        p.background_remove.is_none() ==> merge_layers(u, p).background_remove == u.background_remove,
        p.worktree_path_template.is_some() ==> merge_layers(u, p).worktree_path_template
            == p.worktree_path_template.unwrap(),
        p.worktree_path_template.is_none() && u.worktree_path_template.is_some()
            ==> merge_layers(u, p).worktree_path_template == u.worktree_path_template.unwrap(),
        p.worktree_path_template.is_none() && u.worktree_path_template.is_none()
            ==> merge_layers(u, p).worktree_path_template == default_template(),
        p.commit.is_some() ==> merge_layers(u, p).commit == p.commit,
        p.commit.is_none() ==> merge_layers(u, p).commit == u.commit,
{
}

/// Layering: both layers contribute hooks, the user's first; every user
/// group is tagged `User` and every project group `Project`.
pub proof fn law_hooks_user_then_project(u: Seq<Entries>, p: Seq<Entries>)
    ensures
        merged_groups(u, p).len() == u.len() + p.len(),
        forall|i: int| 0 <= i < u.len() ==> #[trigger] merged_groups(u, p)[i] == (HookSource::User, u[i]),
        forall|i: int| 0 <= i < p.len() ==> #[trigger] merged_groups(u, p)[u.len() + i] == (
            HookSource::Project,
            p[i],
        ),
{
}

/// The per-project entry of the user config sits between the user defaults
/// and the project config: a scalar comes from the project config if set
/// there, else from the override, else from the user defaults.
pub proof fn law_override_is_middle_layer(u: LayerView, o: LayerView, p: LayerView)
    ensures
        merge_layers(lossy_layer(merge_layers(u, o)), p).list == or_else(p.list, or_else(o.list, u.list)),
        merge_layers(lossy_layer(merge_layers(u, o)), p).background_remove == or_else(
            p.background_remove,
            or_else(o.background_remove, u.background_remove),
        ),
        merge_layers(lossy_layer(merge_layers(u, o)), p).commit == or_else(p.commit, or_else(o.commit, u.commit)),
        p.worktree_path_template.is_none() && o.worktree_path_template.is_some()
            ==> merge_layers(lossy_layer(merge_layers(u, o)), p).worktree_path_template
            == o.worktree_path_template.unwrap(),
{
}

} // verus!

verus! {

/// Variables available to templates during hook and alias rendering.
pub struct RenderContext {
    /// Branch/workspace name the operation targets.
    pub branch: String,
    /// Path of the workspace the template is rendered for.
    pub worktree_path: Option<String>,
    /// Workspace directory name.
    pub worktree_name: Option<String>,
    /// Repository root directory name.
    pub repo: Option<String>,
    /// Path of the repository root.
    pub repo_path: Option<String>,
    /// Directory the command will run in.
    pub cwd: Option<String>,
    /// Hook type being rendered, e.g. `pre-start`.
    pub hook_type: Option<String>,
    /// Named key of the hook command inside its group.
    pub hook_name: Option<String>,
    /// Tokens forwarded from the command line.
    pub args: Vec<String>,
    /// Extra variables from `--var KEY=VAL`.
    pub vars: Vec<(String, String)>,
    /// Per-workspace persistent variables, reachable as `{{ vars.KEY }}`.
    pub vars_state: StrMap<String>,
}

/// What a render context holds.
pub struct ContextView {
    pub branch: Seq<char>,
    pub worktree_path: Option<Seq<char>>,
    pub worktree_name: Option<Seq<char>>,
    pub repo: Option<Seq<char>>,
    pub repo_path: Option<Seq<char>>,
    pub cwd: Option<Seq<char>>,
    pub hook_type: Option<Seq<char>>,
    pub hook_name: Option<Seq<char>>,
    pub args: Seq<Seq<char>>,
    pub vars: Seq<(Seq<char>, Seq<char>)>,
    pub vars_state: Map<Seq<char>, Seq<char>>,
}

/// The text of an optional string.
pub open spec fn opt_view(s: Option<String>) -> Option<Seq<char>> {
    match s {
        Some(t) => Some(t@),
        None => None,
    }
}

/// A context with only the branch set.
pub open spec fn context_of_branch(branch: Seq<char>) -> ContextView {
    ContextView {
        branch,
        worktree_path: None,
        worktree_name: None,
        repo: None,
        repo_path: None,
        cwd: None,
        hook_type: None,
        hook_name: None,
        args: seq![],
        vars: seq![],
        vars_state: Map::empty(),
    }
}

impl RenderContext {
    /// What this context holds.
    pub open spec fn view(&self) -> ContextView {
        ContextView {
            branch: self.branch@,
            worktree_path: opt_view(self.worktree_path),
            worktree_name: opt_view(self.worktree_name),
            repo: opt_view(self.repo),
            repo_path: opt_view(self.repo_path),
            cwd: opt_view(self.cwd),
            hook_type: opt_view(self.hook_type),
            hook_name: opt_view(self.hook_name),
            args: self.args@.map_values(|a: String| a@),
            vars: self.vars@.map_values(|p: (String, String)| (p.0@, p.1@)),
            vars_state: self.vars_state@.map_values(|s: String| s@),
        }
    }

    /// A context with only `branch` set.
    pub fn with_branch(branch: String) -> (r: Self)
        ensures
            r.view() == context_of_branch(branch@),
    {
        let r = RenderContext {
            branch,
            worktree_path: None,
            worktree_name: None,
            repo: None,
            repo_path: None,
            cwd: None,
            hook_type: None,
            hook_name: None,
            args: Vec::new(),
            vars: Vec::new(),
            vars_state: StrMap::new(),
        };
        assert(r.view().args =~= Seq::<Seq<char>>::empty());
        assert(r.view().vars =~= Seq::<(Seq<char>, Seq<char>)>::empty());
        assert(r.view().vars_state =~= Map::<Seq<char>, Seq<char>>::empty());
        assert(r.view() =~= context_of_branch(branch@));
        r
    }
}

} // verus!

verus! {

/// A registered jj workspace.
#[derive(Debug)]
pub struct Workspace {
    /// Workspace name as registered with jj.
    pub name: String,
    /// Path of the workspace directory.
    pub path: String,
    /// Whether jj considers this workspace stale.
    pub stale: bool,
}

/// Snapshot of the repository and workspace state observed by the shell.
pub struct ObservedState {
    /// Path of the repository root.
    pub repo_root: String,
    /// Whether the current directory is inside a jj repository.
    pub is_jj_repo: bool,
    /// All registered workspaces.
    pub workspaces: Vec<Workspace>,
    /// Workspace whose path contains the current directory, if any.
    pub current_workspace: Option<String>,
    /// Whether the target workspace path already exists on disk.
    pub target_path_exists: bool,
    /// The target workspace has uncommitted changes.
    pub target_workspace_dirty: bool,
    /// The target bookmark is an ancestor of trunk.
    pub target_bookmark_merged: bool,
    /// The target bookmark exists.
    pub target_bookmark_exists: bool,
    /// Workspace the target name resolves to when it is not itself a
    /// workspace (the trunk bookmark names the default workspace).
    pub target_resolved_workspace: Option<String>,
    /// Name of the trunk bookmark, the default base of new workspaces.
    pub trunk_bookmark: Option<String>,
}

/// A single step of an execution plan.
#[derive(Debug)]
pub enum Action {
    /// Register a new jj workspace at the given path.
    JjWorkspaceAdd { name: String, path: String, revision: Option<String> },
    /// Create a bookmark at the workspace's working copy.
    JjBookmarkCreate { name: String, workspace: String },
    /// Unregister a jj workspace (files stay).
    JjWorkspaceForget { name: String },
    /// Delete a jj bookmark.
    JjBookmarkDelete { name: String },
    /// Bring a stale workspace up to date.
    JjWorkspaceUpdateStale { name: String },
    /// Delete a directory tree.
    DeleteDir { path: String },
    /// Delete a directory tree in a background process.
    DeleteDirBackground { path: String },
    /// Rename a jj workspace.
    JjWorkspaceRename { old_name: String, new_name: String },
    /// Move a directory.
    RenameDir { from: String, to: String },
    /// Rename a jj bookmark.
    JjBookmarkRename { old_name: String, new_name: String },
    /// Run a rendered hook command in a subprocess.
    RunHook {
        name: String,
        raw_cmd: String,
        rendered_cmd: String,
        cwd: String,
        env: Vec<(String, String)>,
        source: HookSource,
    },
    /// Run a command with inherited stdio; a non-zero exit halts the plan.
    Exec { rendered_cmd: String, cwd: String, env: Vec<(String, String)> },
    /// Print a line to stdout (read by the shell wrapper).
    PrintLine(String),
}

/// What an action does, as text.
pub enum ActionView {
    WorkspaceAdd { name: Seq<char>, path: Seq<char>, revision: Option<Seq<char>> },
    BookmarkCreate { name: Seq<char>, workspace: Seq<char> },
    WorkspaceForget { name: Seq<char> },
    BookmarkDelete { name: Seq<char> },
    WorkspaceUpdateStale { name: Seq<char> },
    DeleteDir { path: Seq<char> },
    DeleteDirBackground { path: Seq<char> },
    WorkspaceRename { old_name: Seq<char>, new_name: Seq<char> },
    RenameDir { from: Seq<char>, to: Seq<char> },
    BookmarkRename { old_name: Seq<char>, new_name: Seq<char> },
    RunHook {
        name: Seq<char>,
        raw_cmd: Seq<char>,
        rendered_cmd: Seq<char>,
        cwd: Seq<char>,
        env: Seq<(Seq<char>, Seq<char>)>,
        source: HookSource,
    },
    Exec { rendered_cmd: Seq<char>, cwd: Seq<char>, env: Seq<(Seq<char>, Seq<char>)> },
    PrintLine(Seq<char>),
}

/// The text of each pair.
pub open spec fn pairs_view(v: Seq<(String, String)>) -> Seq<(Seq<char>, Seq<char>)> {
    v.map_values(|p: (String, String)| (p.0@, p.1@))
}

impl Action {
    /// What this action does.
    pub open spec fn view(&self) -> ActionView {
        match self {
            Action::JjWorkspaceAdd { name, path, revision } => ActionView::WorkspaceAdd {
                name: name@,
                path: path@,
                revision: opt_view(*revision),
            },
            Action::JjBookmarkCreate { name, workspace } => ActionView::BookmarkCreate {
                name: name@,
                workspace: workspace@,
            },
            Action::JjWorkspaceForget { name } => ActionView::WorkspaceForget { name: name@ },
            Action::JjBookmarkDelete { name } => ActionView::BookmarkDelete { name: name@ },
            Action::JjWorkspaceUpdateStale { name } => ActionView::WorkspaceUpdateStale { name: name@ },
            Action::DeleteDir { path } => ActionView::DeleteDir { path: path@ },
            Action::DeleteDirBackground { path } => ActionView::DeleteDirBackground { path: path@ },
            Action::JjWorkspaceRename { old_name, new_name } => ActionView::WorkspaceRename {
                old_name: old_name@,
                new_name: new_name@,
            },
            Action::RenameDir { from, to } => ActionView::RenameDir { from: from@, to: to@ },
            Action::JjBookmarkRename { old_name, new_name } => ActionView::BookmarkRename {
                old_name: old_name@,
                new_name: new_name@,
            },
            Action::RunHook { name, raw_cmd, rendered_cmd, cwd, env, source } => ActionView::RunHook {
                name: name@,
                raw_cmd: raw_cmd@,
                rendered_cmd: rendered_cmd@,
                cwd: cwd@,
                env: pairs_view(env@),
                source: *source,
            },
            Action::Exec { rendered_cmd, cwd, env } => ActionView::Exec {
                rendered_cmd: rendered_cmd@,
                cwd: cwd@,
                env: pairs_view(env@),
            },
            Action::PrintLine(s) => ActionView::PrintLine(s@),
        }
    }
}

/// What each action of a sequence does.
pub open spec fn actions_view(v: Seq<Action>) -> Seq<ActionView> {
    v.map_values(|a: Action| a.view())
}

/// An ordered sequence of actions to be executed.
pub struct Plan {
    /// Actions to execute in order.
    pub actions: Vec<Action>,
}

impl Plan {
    /// What the plan does, in order.
    pub open spec fn view(&self) -> Seq<ActionView> {
        actions_view(self.actions@)
    }

    /// An empty plan.
    pub fn new() -> (r: Self)
        ensures
            r.view() == Seq::<ActionView>::empty(),
    {
        let r = Plan { actions: Vec::new() };
        assert(r.view() =~= Seq::<ActionView>::empty());
        r
    }

    /// Append an action to the end of the plan.
    pub fn push(&mut self, a: Action)
        ensures
            final(self).view() == old(self).view().push(a.view()),
    {
        let ghost av = a.view();
        self.actions.push(a);
        assert(self.view() =~= old(self).view().push(av));
    }

    /// Append actions to the end of the plan.
    pub fn extend(&mut self, more: Vec<Action>)
        ensures
            final(self).view() == old(self).view() + actions_view(more@),
    {
        let mut m = more;
        let ghost mv = actions_view(m@);
        self.actions.append(&mut m);
        assert(self.view() =~= old(self).view() + mv);
    }
}

/// Output format chosen by `--format`.
#[derive(Debug, Clone, Copy, PartialEq, Eq, Structural)]
pub enum OutputFormat {
    /// Human-readable text (the default).
    Text,
    /// Machine-readable JSON.
    Json,
    /// Compact one-line summary for status displays.
    Statusline,
}

impl OutputFormat {
    /// Text, the default format.
    pub fn default() -> (r: Self)
        ensures
            r == OutputFormat::Text,
    {
        OutputFormat::Text
    }
}

/// Arguments of `switch`.
pub struct SwitchArgs {
    /// Target workspace name.
    pub name: String,
    /// Create the workspace if it does not exist.
    pub create: bool,
    /// Re-run start hooks even though the workspace exists.
    pub rerun_hooks: bool,
    /// Skip all hooks.
    pub no_hooks: bool,
    /// Command template to run after switching.
    pub execute: Option<String>,
    /// Remove a stale directory at the target path before creating.
    pub clobber: bool,
    /// Base revision of a new workspace (the trunk bookmark when absent).
    pub base: Option<String>,
    /// Only show what would be done.
    pub dry_run: bool,
    /// Output format.
    pub format: OutputFormat,
}

/// Arguments of `remove`.
pub struct RemoveArgs {
    /// Bypass the uncommitted-changes check.
    pub force: bool,
    /// Skip all hooks.
    pub no_hooks: bool,
    /// Never delete the bookmark.
    pub no_delete_branch: bool,
    /// Delete the bookmark even when it is not merged into trunk.
    pub force_delete: bool,
    /// Only show what would be done.
    pub dry_run: bool,
    /// Output format.
    pub format: OutputFormat,
}

/// Arguments of `hook` (manual hook invocation).
pub struct HookArgs {
    /// Named key of the hook to run.
    pub name: String,
    /// Workspace used as context for rendering.
    pub current_workspace: String,
    /// Extra variables from `--var KEY=VAL`.
    pub vars: Vec<(String, String)>,
}

/// Arguments of a custom alias invocation.
pub struct AliasArgs {
    /// Alias name.
    pub name: String,
    /// Tokens bound to `{{ args }}`.
    pub forwarded: Vec<String>,
}

/// Arguments of `relocate`.
pub struct RelocateArgs {
    /// Current workspace name.
    pub old_name: String,
    /// New workspace name.
    pub new_name: String,
    /// Also rename the bookmark.
    pub rename_bookmark: bool,
    /// Output format.
    pub format: OutputFormat,
}

/// Arguments of `prune`.
pub struct PruneArgs {
    /// Only report what would be pruned.
    pub dry_run: bool,
    /// Skip all hooks.
    pub no_hooks: bool,
    /// Output format.
    pub format: OutputFormat,
}

/// Relationship of a workspace's `@` to trunk.
#[derive(Debug, Clone, Copy, PartialEq, Eq, Structural)]
pub enum TrunkRel {
    /// Exactly trunk.
    IsTrunk,
    /// An ancestor of trunk (merged in).
    Ancestor,
    /// Both ahead of and behind trunk.
    Diverged,
    /// Strictly ahead of trunk.
    Ahead,
    /// Strictly behind trunk.
    Behind,
    /// No measurable relationship (e.g. unborn).
    Unrelated,
}

/// Per-workspace status indicators of the list.
#[derive(Debug, Clone, Copy, PartialEq, Eq, Structural)]
pub struct StatusFlags {
    /// `@` has a non-empty diff against its parent.
    pub has_changes: bool,
    /// Tracked files are modified.
    pub modified: bool,
    /// Untracked files are present.
    pub untracked: bool,
    /// Workspace is stale.
    pub stale: bool,
    /// Working copy has conflicts.
    pub conflicts: bool,
    /// The bookmark has a remote-tracking variant.
    pub has_remote: bool,
    /// Relationship of `@` to trunk.
    pub vs_trunk: Option<TrunkRel>,
}

impl StatusFlags {
    /// No indicator set.
    pub fn default() -> (r: Self)
        ensures
            !r.has_changes && !r.modified && !r.untracked && !r.stale && !r.conflicts && !r.has_remote,
            r.vs_trunk.is_none(),
    {
        StatusFlags {
            has_changes: false,
            modified: false,
            untracked: false,
            stale: false,
            conflicts: false,
            has_remote: false,
            vs_trunk: None,
        }
    }
}

/// Lines added and removed in a diff.
#[derive(Debug, Clone, Copy, PartialEq, Eq, Structural)]
pub struct LineDiff {
    /// Lines added.
    pub added: u32,
    /// Lines removed.
    pub removed: u32,
}

/// Commits ahead of and behind trunk.
#[derive(Debug, Clone, Copy, PartialEq, Eq, Structural)]
pub struct AheadBehind {
    /// Commits ahead of trunk.
    pub ahead: u32,
    /// Commits behind trunk.
    pub behind: u32,
}

/// Commit metadata and diff stats of a workspace's `@`.
pub struct CommitInfo {
    /// Short change ID (8 chars).
    pub commit_short: String,
    /// Seconds since the committer timestamp.
    pub age_seconds: i64,
    /// First line of the description.
    pub message_first_line: String,
    /// Unresolved conflicts.
    pub conflicts: bool,
    /// Lines added against the parent.
    pub head_added: u32,
    /// Lines removed against the parent.
    pub head_removed: u32,
}

/// Per-workspace details gathered by the shell for the list table.
pub struct WorkspaceDetails {
    /// Tracked files are modified.
    pub modified: bool,
    /// Untracked files are present.
    pub untracked: bool,
    /// Unresolved conflicts.
    pub conflicts: bool,
    /// Short change ID (8 chars).
    pub commit_short: String,
    /// Seconds since the committer timestamp.
    pub age_seconds: i64,
    /// First line of the description.
    pub message_first_line: String,
    /// Lines added in the working-copy diff.
    pub head_added: u32,
    /// Lines removed in the working-copy diff.
    pub head_removed: u32,
}

/// CI check status of a workspace's bookmark.
#[derive(Debug, Clone, Copy, PartialEq, Eq, Structural)]
pub enum CiStatus {
    /// All checks passed.
    Pass,
    /// A check failed.
    Fail,
    /// Checks are still running.
    Pending,
    /// No CI information.
    Absent,
}

impl CiStatus {
    /// The status shown in lowercase.
    pub open spec fn name(self) -> Seq<char> {
        match self {
            CiStatus::Pass => seq!['p', 'a', 's', 's'],
            CiStatus::Fail => seq!['f', 'a', 'i', 'l'],
            CiStatus::Pending => seq!['p', 'e', 'n', 'd', 'i', 'n', 'g'],
            CiStatus::Absent => seq!['n', 'o', 'n', 'e'],
        }
    }

    /// `pass`, `fail`, `pending` or `none`.
    pub fn to_string(&self) -> (r: String)
        ensures
            r@ == self.name(),
    {
        proof {
            reveal_strlit("pass");
            reveal_strlit("fail");
            reveal_strlit("pending");
            reveal_strlit("none");
        }
        match self {
            CiStatus::Pass => "pass".to_owned(),
            CiStatus::Fail => "fail".to_owned(),
            CiStatus::Pending => "pending".to_owned(),
            CiStatus::Absent => "none".to_owned(),
        }
    }

    /// No CI information, the default.
    pub fn default() -> (r: Self)
        ensures
            r == CiStatus::Absent,
    {
        CiStatus::Absent
    }
}

/// Raw per-workspace data observed for the list.
pub struct ObservedListRow {
    /// The workspace.
    pub workspace: Workspace,
    /// Working-copy status and commit metadata.
    pub details: WorkspaceDetails,
    /// Commits ahead of trunk.
    pub ahead: u32,
    /// Commits behind trunk.
    pub behind: u32,
    /// The bookmark has a remote-tracking variant.
    pub has_remote_bookmark: bool,
    /// CI status (only with `--full`).
    pub ci_status: CiStatus,
    /// Generated one-line summary (only with `--full`).
    pub summary: String,
}

/// State for `prune`: every workspace with its merge status.
pub struct ObservedPruneState {
    /// Path of the repository root.
    pub repo_root: String,
    /// Whether the current directory is inside a jj repository.
    pub is_jj_repo: bool,
    /// Workspace containing the current directory, if any.
    pub current_workspace: Option<String>,
    /// All registered workspaces.
    pub workspaces: Vec<Workspace>,
    /// Per workspace: (name, bookmark exists, bookmark merged, dirty).
    pub workspace_status: Vec<(String, bool, bool, bool)>,
}

/// Presentation hints from the terminal.
#[derive(Debug, Clone, Copy, PartialEq, Eq, Structural)]
pub struct DisplayHints {
    /// Emit ANSI escape sequences.
    pub styled: bool,
    /// Terminal width in columns, if known.
    pub term_width: Option<u16>,
}

/// Observed state for `list`.
pub struct ObservedListState {
    /// Path of the repository root.
    pub repo_root: String,
    /// Whether the current directory is inside a jj repository.
    pub is_jj_repo: bool,
    /// Workspace containing the current directory, if any.
    pub current_workspace: Option<String>,
    /// Per-workspace observations.
    pub rows: Vec<ObservedListRow>,
    /// Bookmarks without a workspace (with `--bookmarks`).
    pub extra_bookmark_names: Vec<String>,
    /// Remote-only bookmarks (with `--remotes`), without the remote suffix.
    pub extra_remote_only_names: Vec<String>,
    /// Whether `--full` is on (all columns).
    pub full: bool,
}

/// Kind of list row.
#[derive(Debug, Clone, Copy, PartialEq, Eq, Structural)]
pub enum ListRowKind {
    /// A registered jj workspace.
    Workspace,
    /// A bookmark without a workspace.
    Bookmark,
}

/// Options gating which rows are collected for `list`.
#[derive(Debug, Clone, Copy, PartialEq, Eq, Structural)]
pub struct ListOptions {
    /// Include local bookmarks without a workspace.
    pub include_bookmarks: bool,
    /// Include remote-only bookmarks.
    pub include_remotes: bool,
    /// Show the additional columns (CI, URL, Commit, Age, Summary).
    pub full: bool,
}

/// A resolved row of the list table.
pub struct ListRow {
    /// Workspace (and bookmark) name.
    pub name: String,
    /// Path of the workspace (empty for bookmark rows).
    pub path: String,
    /// Path relative to the repository root, for display.
    pub display_path: String,
    /// Workspace or bookmark row.
    pub kind: ListRowKind,
    /// Rendered from `[list].url`; empty without it.
    pub url: String,
    /// The workspace contains the current directory.
    pub is_current: bool,
    /// The workspace lives at the repository root.
    pub is_default: bool,
    /// Status indicators.
    pub status: StatusFlags,
    /// Working-copy line diff.
    pub head_diff: LineDiff,
    /// Commits ahead of and behind trunk.
    pub vs_trunk: AheadBehind,
    /// Short change ID.
    pub commit: String,
    /// Relative age such as `9h`.
    pub age: String,
    /// First line of the description.
    pub message: String,
    /// CI status.
    pub ci_status: CiStatus,
    /// Generated one-line summary.
    pub summary: String,
}

} // verus!
