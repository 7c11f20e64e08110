use vstd::prelude::*;

use std::collections::HashMap;
use vstd::string::StringExecFns;

verus! {

/// How panes were arranged in old state files; kept for migration.
#[derive(Clone, Copy, PartialEq, Eq, Structural)]
pub enum Layout {
    Horizontal,
    Vertical,
    Grid,
}

/// Which way a pane splits.
#[derive(Clone, Copy, PartialEq, Eq, Structural)]
pub enum SplitDirection {
    Horizontal,
    Vertical,
}

/// How the terminal cursor is drawn.
#[derive(Clone, Copy, PartialEq, Eq, Structural)]
pub enum CursorStyle {
    Block,
    Underline,
    Bar,
}

/// What a trigger does when its pattern matches.
#[derive(Clone, Copy, PartialEq, Eq, Structural)]
pub enum TriggerActionType {
    Notify,
    SendCommand,
    SetTabState,
}

/// One action a trigger runs on match.
#[derive(Clone)]
pub struct TriggerActionEntry {
    pub action_type: TriggerActionType,
    pub command: Option<String>,
    pub message: Option<String>,
    pub tab_state: Option<String>,
}

/// How one capture group becomes a named variable.
#[derive(Clone)]
pub struct VariableMapping {
    pub name: String,
    pub group: u32,
    pub template: Option<String>,
}

/// A user-defined pattern watched in terminal output.
#[derive(Clone)]
pub struct Trigger {
    pub id: String,
    pub name: String,
    pub description: Option<String>,
    pub pattern: String,
    pub actions: Vec<TriggerActionEntry>,
    pub enabled: bool,
    pub workspaces: Vec<String>,
    pub cooldown: u32,
    pub variables: Vec<VariableMapping>,
    pub plain_text: bool,
    pub default_id: Option<String>,
}

/// The user's preferences, with the defaults a fresh install starts
/// from. Custom theme definitions are opaque documents supplied by the
/// user interface.
pub struct Preferences {
    pub font_size: u32,
    pub font_family: String,
    pub cursor_style: CursorStyle,
    pub cursor_blink: bool,
    pub auto_save_interval: u32,
    pub scrollback_limit: u32,
    pub prompt_patterns: Vec<String>,
    pub clone_cwd: bool,
    pub clone_scrollback: bool,
    pub clone_ssh: bool,
    pub clone_history: bool,
    pub clone_notes: bool,
    pub clone_auto_resume: bool,
    pub clone_variables: bool,
    pub theme: String,
    pub shell_title_integration: bool,
    pub shell_integration: bool,
    pub custom_themes: Vec<crate::json::Json>,
    pub restore_session: bool,
    pub notification_mode: String,
    pub notify_min_duration: u32,
    pub notes_font_size: u32,
    pub notes_font_family: String,
    pub notes_width: u32,
    pub notes_word_wrap: bool,
    pub toast_font_size: u32,
    pub toast_width: u32,
    pub toast_duration: u32,
    pub notification_sound: String,
    pub notification_volume: u32,
    pub triggers: Vec<Trigger>,
    pub hidden_default_triggers: Vec<String>,
}

impl Default for Preferences {
    /// The out-of-the-box preferences.
    fn default() -> (p: Preferences)
        ensures
            p.font_size == 13,
            p.font_family@ == "Menlo"@,
            p.cursor_style == CursorStyle::Block,
            p.cursor_blink,
            p.auto_save_interval == 10,
            p.scrollback_limit == 10000,
            p.prompt_patterns@.len() == 3,
            p.clone_cwd && p.clone_scrollback && p.clone_ssh && p.clone_history && p.clone_notes
                && p.clone_auto_resume && p.clone_variables,
            p.theme@ == "tokyo-night"@,
            !p.shell_title_integration,
            !p.shell_integration,
            p.custom_themes@.len() == 0,
            !p.restore_session,
            p.notification_mode@ == "auto"@,
            p.notify_min_duration == 5,
            p.notes_font_size == 16,
            p.notes_font_family@ == "Menlo"@,
            p.notes_width == 320,
            p.notes_word_wrap,
            p.toast_font_size == 14,
            p.toast_width == 400,
            p.toast_duration == 8,
            p.notification_sound@ == "default"@,
            p.notification_volume == 50,
            p.triggers@.len() == 0,
            p.hidden_default_triggers@.len() == 0,
    {
        let mut prompt_patterns: Vec<String> = Vec::new();
        prompt_patterns.push(String::from_str("\\u@\\h:\\d\\p"));
        prompt_patterns.push(String::from_str("\\h \\u[\\d]\\p"));
        prompt_patterns.push(String::from_str("[\\u@\\h \\d]\\p"));
        Preferences {
            font_size: 13,
            font_family: String::from_str("Menlo"),
            cursor_style: CursorStyle::Block,
            cursor_blink: true,
            auto_save_interval: 10,
            scrollback_limit: 10000,
            prompt_patterns,
            clone_cwd: true,
            clone_scrollback: true,
            clone_ssh: true,
            clone_history: true,
            clone_notes: true,
            clone_auto_resume: true,
            clone_variables: true,
            theme: String::from_str("tokyo-night"),
            shell_title_integration: false,
            shell_integration: false,
            custom_themes: Vec::new(),
            restore_session: false,
            notification_mode: String::from_str("auto"),
            notify_min_duration: 5,
            notes_font_size: 16,
            notes_font_family: String::from_str("Menlo"),
            notes_width: 320,
            notes_word_wrap: true,
            toast_font_size: 14,
            toast_width: 400,
            toast_duration: 8,
            notification_sound: String::from_str("default"),
            notification_volume: 50,
            triggers: Vec::new(),
            hidden_default_triggers: Vec::new(),
        }
    }
}

/// One terminal tab, with its persisted restore and note state.
pub struct Tab {
    pub id: String,
    pub name: String,
    pub pty_id: Option<String>,
    pub scrollback: Option<String>,
    pub custom_name: bool,
    pub restore_cwd: Option<String>,
    pub restore_ssh_command: Option<String>,
    pub restore_remote_cwd: Option<String>,
    pub auto_resume_cwd: Option<String>,
    pub auto_resume_ssh_command: Option<String>,
    pub auto_resume_remote_cwd: Option<String>,
    pub auto_resume_command: Option<String>,
    pub auto_resume_remembered_command: Option<String>,
    pub notes: Option<String>,
    pub notes_mode: Option<String>,
    pub notes_open: bool,
    pub trigger_variables: HashMap<String, String>,
}

/// One pane: an ordered list of tabs and the active one.
pub struct Pane {
    pub id: String,
    pub name: String,
    pub tabs: Vec<Tab>,
    pub active_tab_id: Option<String>,
}

/// The model of a split layout: leaves name panes; splits carry their
/// identifier, direction, and ratio in thousandths of the available
/// space.
#[verifier::ext_equal]
pub enum SplitNodeV {
    Leaf { pane_id: Seq<char> },
    Split {
        id: Seq<char>,
        direction: SplitDirection,
        ratio_millis: u32,
        children: Box<(SplitNodeV, SplitNodeV)>,
    },
}

/// How a workspace's panes are arranged: a binary tree of splits with
/// panes at the leaves. The split ratio is kept in thousandths, so the
/// layout stays in plain values.
pub enum SplitNode {
    Leaf { pane_id: String },
    Split {
        id: String,
        direction: SplitDirection,
        ratio_millis: u32,
        children: Box<(SplitNode, SplitNode)>,
    },
}

impl DeepView for SplitNode {
    type V = SplitNodeV;

    open spec fn deep_view(&self) -> SplitNodeV
        decreases self,
    {
        match self {
            SplitNode::Leaf { pane_id } => SplitNodeV::Leaf { pane_id: pane_id@ },
            SplitNode::Split { id, direction, ratio_millis, children } => SplitNodeV::Split {
                id: id@,
                direction: *direction,
                ratio_millis: *ratio_millis,
                children: Box::new(((*children).0.deep_view(), (*children).1.deep_view())),
            },
        }
    }
}

/// True when some leaf names this pane.
pub open spec fn node_contains(v: SplitNodeV, pane_id: Seq<char>) -> bool
    decreases v,
{
    match v {
        SplitNodeV::Leaf { pane_id: p } => p == pane_id,
        SplitNodeV::Split { children, .. } => node_contains(children.0, pane_id)
            || node_contains(children.1, pane_id),
    }
}

/// The pane identifiers at the leaves, left to right.
pub open spec fn node_pane_ids(v: SplitNodeV) -> Seq<Seq<char>>
    decreases v,
{
    match v {
        SplitNodeV::Leaf { pane_id } => seq![pane_id],
        SplitNodeV::Split { children, .. } => node_pane_ids(children.0) + node_pane_ids(
            children.1,
        ),
    }
}

/// The tree with the named split's ratio changed; every other split is
/// untouched.
pub open spec fn node_set_ratio(v: SplitNodeV, split_id: Seq<char>, ratio_millis: u32) -> SplitNodeV
    decreases v,
{
    match v {
        SplitNodeV::Leaf { .. } => v,
        SplitNodeV::Split { id, direction, ratio_millis: old_ratio, children } => SplitNodeV::Split {
            id,
            direction,
            ratio_millis: if id == split_id {
                ratio_millis
            } else {
                old_ratio
            },
            children: Box::new(
                (
                    node_set_ratio(children.0, split_id, ratio_millis),
                    node_set_ratio(children.1, split_id, ratio_millis),
                ),
            ),
        },
    }
}

/// The tree with every leaf naming this pane removed: a split with one
/// emptied side collapses to the other; `None` when nothing is left.
pub open spec fn node_remove(v: SplitNodeV, pane_id: Seq<char>) -> Option<SplitNodeV>
    decreases v,
{
    match v {
        SplitNodeV::Leaf { pane_id: p } => if p == pane_id {
            None
        } else {
            Some(v)
        },
        SplitNodeV::Split { id, direction, ratio_millis, children } => {
            match (node_remove(children.0, pane_id), node_remove(children.1, pane_id)) {
                (None, None) => None,
                (Some(n), None) => Some(n),
                (None, Some(n)) => Some(n),
                (Some(l), Some(r)) => Some(
                    SplitNodeV::Split {
                        id,
                        direction,
                        ratio_millis,
                        children: Box::new((l, r)),
                    },
                ),
            }
        },
    }
}

/// The tree with the target leaf split in two: the target pane keeps
/// the first half, the new pane takes the second, under a fresh split
/// node named `split_id`. Other leaves stay as they are.
pub open spec fn node_split(
    v: SplitNodeV,
    target: Seq<char>,
    new_pane: Seq<char>,
    direction: SplitDirection,
    split_id: Seq<char>,
) -> SplitNodeV
    decreases v,
{
    match v {
        SplitNodeV::Leaf { pane_id } => if pane_id == target {
            SplitNodeV::Split {
                id: split_id,
                direction,
                ratio_millis: 500,
                children: Box::new(
                    (
                        SplitNodeV::Leaf { pane_id: target },
                        SplitNodeV::Leaf { pane_id: new_pane },
                    ),
                ),
            }
        } else {
            v
        },
        SplitNodeV::Split { id, direction: d, ratio_millis, children } => SplitNodeV::Split {
            id,
            direction: d,
            ratio_millis,
            children: Box::new(
                (
                    node_split(children.0, target, new_pane, direction, split_id),
                    node_split(children.1, target, new_pane, direction, split_id),
                ),
            ),
        },
    }
}

impl SplitNode {
    /// True when some leaf names this pane.
    pub fn contains_pane(&self, pane_id: &String) -> (r: bool)
        ensures
            r == node_contains(self.deep_view(), pane_id@),
        decreases self,
    {
        match self {
            SplitNode::Leaf { pane_id: p } => *p == *pane_id,
            SplitNode::Split { children, .. } => {
                children.0.contains_pane(pane_id) || children.1.contains_pane(pane_id)
            },
        }
    }

    /// Collects the pane identifiers at the leaves, left to right.
    pub fn all_pane_ids(&self) -> (r: Vec<String>)
        ensures
            crate::bridge::ids_view(r@) == node_pane_ids(self.deep_view()),
        decreases self,
    {
        match self {
            SplitNode::Leaf { pane_id } => {
                let mut ids: Vec<String> = Vec::new();
                ids.push(pane_id.clone());
                proof {
                    crate::bridge::lemma_ids_view(ids@);
                    assert(crate::bridge::ids_view(ids@) =~= seq![pane_id@]);
                }
                ids
            },
            SplitNode::Split { children, .. } => {
                let mut ids = children.0.all_pane_ids();
                let mut right = children.1.all_pane_ids();
                let ghost left_v = crate::bridge::ids_view(ids@);
                let ghost right_v = crate::bridge::ids_view(right@);
                proof {
                    crate::bridge::lemma_ids_view(ids@);
                    crate::bridge::lemma_ids_view(right@);
                }
                ids.append(&mut right);
                proof {
                    crate::bridge::lemma_ids_view(ids@);
                    assert(crate::bridge::ids_view(ids@) =~= left_v + right_v);
                }
                ids
            },
        }
    }

    /// Changes the named split's ratio, leaving every other split — and
    /// every leaf — untouched.
    pub fn set_ratio(&self, split_id: &String, ratio_millis: u32) -> (r: SplitNode)
        ensures
            r.deep_view() == node_set_ratio(self.deep_view(), split_id@, ratio_millis),
        decreases self,
    {
        match self {
            SplitNode::Leaf { pane_id } => SplitNode::Leaf { pane_id: pane_id.clone() },
            SplitNode::Split { id, direction, ratio_millis: old_ratio, children } => {
                let new_ratio: u32 = if *id == *split_id {
                    ratio_millis
                } else {
                    *old_ratio
                };
                SplitNode::Split {
                    id: id.clone(),
                    direction: direction.clone(),
                    ratio_millis: new_ratio,
                    children: Box::new(
                        (
                            children.0.set_ratio(split_id, ratio_millis),
                            children.1.set_ratio(split_id, ratio_millis),
                        ),
                    ),
                }
            },
        }
    }

    /// Removes every leaf naming this pane; a split with one emptied
    /// side collapses to the other, and `None` reports an empty layout.
    pub fn remove_pane(&self, pane_id: &String) -> (r: Option<SplitNode>)
        ensures
            match r {
                Some(n) => node_remove(self.deep_view(), pane_id@) == Some(n.deep_view()),
                None => node_remove(self.deep_view(), pane_id@) is None,
            },
        decreases self,
    {
        match self {
            SplitNode::Leaf { pane_id: p } => {
                if *p == *pane_id {
                    None
                } else {
                    Some(SplitNode::Leaf { pane_id: p.clone() })
                }
            },
            SplitNode::Split { id, direction, ratio_millis, children } => {
                let left = children.0.remove_pane(pane_id);
                let right = children.1.remove_pane(pane_id);
                match (left, right) {
                    (None, None) => None,
                    (Some(n), None) => Some(n),
                    (None, Some(n)) => Some(n),
                    (Some(l), Some(r)) => Some(
                        SplitNode::Split {
                            id: id.clone(),
                            direction: direction.clone(),
                            ratio_millis: *ratio_millis,
                            children: Box::new((l, r)),
                        },
                    ),
                }
            },
        }
    }

    /// Splits the target leaf in two: the target pane keeps the first
    /// half and `new_pane_id` takes the second, under a split node
    /// named `split_id` with an even ratio. Every other leaf stays.
    pub fn split_pane(
        &self,
        target_pane_id: &String,
        new_pane_id: &String,
        direction: SplitDirection,
        split_id: &String,
    ) -> (r: SplitNode)
        ensures
            r.deep_view() == node_split(
                self.deep_view(),
                target_pane_id@,
                new_pane_id@,
                direction,
                split_id@,
            ),
        decreases self,
    {
        let ghost m = node_split(
            self.deep_view(),
            target_pane_id@,
            new_pane_id@,
            direction,
            split_id@,
        );
        match self {
            SplitNode::Leaf { pane_id } => {
                if *pane_id == *target_pane_id {
                    let kept = SplitNode::Leaf { pane_id: target_pane_id.clone() };
                    let added = SplitNode::Leaf { pane_id: new_pane_id.clone() };
                    proof {
                        assert(kept.deep_view() == SplitNodeV::Leaf { pane_id: target_pane_id@ });
                        assert(added.deep_view() == SplitNodeV::Leaf { pane_id: new_pane_id@ });
                    }
                    let r = SplitNode::Split {
                        id: split_id.clone(),
                        direction,
                        ratio_millis: 500,
                        children: Box::new((kept, added)),
                    };
                    proof {
                        assert(r.deep_view() == m);
                    }
                    r
                } else {
                    SplitNode::Leaf { pane_id: pane_id.clone() }
                }
            },
            SplitNode::Split { id, direction: d, ratio_millis, children } => {
                let left = children.0.split_pane(
                    target_pane_id,
                    new_pane_id,
                    direction,
                    split_id,
                );
                let right = children.1.split_pane(
                    target_pane_id,
                    new_pane_id,
                    direction,
                    split_id,
                );
                let r = SplitNode::Split {
                    id: id.clone(),
                    direction: *d,
                    ratio_millis: *ratio_millis,
                    children: Box::new((left, right)),
                };
                proof {
                    assert(r.deep_view() =~~= m);
                }
                r
            },
        }
    }

    /// `split_pane` with a freshly generated identifier for the created
    /// split node.
    pub fn split_pane_fresh(
        &self,
        target_pane_id: &String,
        new_pane_id: &String,
        direction: SplitDirection,
    ) -> (r: SplitNode)
        ensures
            exists|sid: Seq<char>|
                r.deep_view() == node_split(
                    self.deep_view(),
                    target_pane_id@,
                    new_pane_id@,
                    direction,
                    sid,
                ),
    {
        let sid = crate::bridge::fresh_id();
        let r = self.split_pane(target_pane_id, new_pane_id, direction, &sid);
        proof {
            assert(r.deep_view() == node_split(
                self.deep_view(),
                target_pane_id@,
                new_pane_id@,
                direction,
                sid@,
            ));
        }
        r
    }
}

/// Index of the first tab with this identifier; negative when absent.
pub open spec fn tab_index(tabs: Seq<Tab>, id: Seq<char>) -> int
    decreases tabs.len(),
{
    if tabs.len() == 0 {
        -1
    } else if tabs[0].id@ == id {
        0
    } else {
        let rest = tab_index(tabs.drop_first(), id);
        if rest < 0 {
            -1
        } else {
            rest + 1
        }
    }
}

/// When the first tab with `id` stands at `at`, that is its index.
pub proof fn lemma_tab_index_at(tabs: Seq<Tab>, id: Seq<char>, at: int)
    requires
        0 <= at < tabs.len(),
        tabs[at].id@ == id,
        forall|j: int| 0 <= j < at ==> (#[trigger] tabs[j]).id@ != id,
    ensures
        tab_index(tabs, id) == at,
    decreases at,
{
    if at > 0 {
        lemma_tab_index_at(tabs.drop_first(), id, at - 1);
    }
}

/// A missing identifier has no index.
pub proof fn lemma_tab_index_missing(tabs: Seq<Tab>, id: Seq<char>)
    requires
        forall|j: int| 0 <= j < tabs.len() ==> (#[trigger] tabs[j]).id@ != id,
    ensures
        tab_index(tabs, id) < 0,
    decreases tabs.len(),
{
    if tabs.len() > 0 {
        lemma_tab_index_missing(tabs.drop_first(), id);
    }
}

/// The tabs picked out by an ordered list of identifiers: each listed
/// tab once, in the listed order; identifiers naming no remaining tab
/// are skipped, and tabs not listed are dropped.
pub open spec fn reorder_pick(tabs: Seq<Tab>, ids: Seq<Seq<char>>) -> Seq<Tab>
    decreases ids.len(),
{
    if ids.len() == 0 {
        Seq::empty()
    } else {
        let i = tab_index(tabs, ids[0]);
        if i < 0 {
            reorder_pick(tabs, ids.drop_first())
        } else {
            seq![tabs[i]] + reorder_pick(tabs.remove(i), ids.drop_first())
        }
    }
}

/// Reorders a pane's tabs to the given identifier order. Each listed
/// tab moves once; unlisted tabs are dropped, and identifiers naming
/// nothing are ignored.
pub fn reorder_tabs(tabs: Vec<Tab>, tab_ids: &Vec<String>) -> (r: Vec<Tab>)
    ensures
        r@ == reorder_pick(tabs@, crate::bridge::ids_view(tab_ids@)),
{
    let ghost tabs0 = tabs@;
    let ghost idsv = crate::bridge::ids_view(tab_ids@);
    proof {
        crate::bridge::lemma_ids_view(tab_ids@);
        assert(idsv.skip(0) =~= idsv);
        assert(Seq::<Tab>::empty() + reorder_pick(tabs@, idsv) =~= reorder_pick(tabs@, idsv));
    }
    let mut remaining = tabs;
    let mut picked: Vec<Tab> = Vec::new();
    let mut k: usize = 0;
    while k < tab_ids.len()
        invariant
            k <= tab_ids@.len(),
            idsv == crate::bridge::ids_view(tab_ids@),
            idsv.len() == tab_ids@.len(),
            forall|j: int| 0 <= j < tab_ids@.len() ==> #[trigger] idsv[j] == tab_ids@[j]@,
            reorder_pick(tabs0, idsv) == picked@ + reorder_pick(remaining@, idsv.skip(k as int)),
        decreases tab_ids@.len() - k,
    {
        proof {
            assert(idsv.skip(k as int)[0] == idsv[k as int]);
            assert(idsv.skip(k as int).drop_first() =~= idsv.skip(k + 1));
        }
        let ghost before = remaining@;
        match tab_position(&remaining, &tab_ids[k]) {
            Some(i) => {
                let t = remaining.remove(i);
                proof {
                    lemma_tab_index_at(before, idsv[k as int], i as int);
                }
                picked.push(t);
                proof {
                    assert(picked@ + reorder_pick(remaining@, idsv.skip(k + 1))
                        =~= (picked@.drop_last() + (seq![before[i as int]] + reorder_pick(
                        before.remove(i as int),
                        idsv.skip(k + 1),
                    ))));
                }
            },
            None => {
                proof {
                    lemma_tab_index_missing(before, idsv[k as int]);
                }
            },
        }
        k = k + 1;
    }
    proof {
        assert(idsv.skip(tab_ids@.len() as int).len() == 0);
        assert(picked@ + reorder_pick(remaining@, idsv.skip(tab_ids@.len() as int)) =~= picked@);
    }
    picked
}

/// Index of the first tab with this identifier, if any.
fn tab_position(tabs: &Vec<Tab>, tab_id: &String) -> (r: Option<usize>)
    ensures
        match r {
            Some(i) => i < tabs@.len() && tabs@[i as int].id@ == tab_id@ && forall|j: int|
                0 <= j < i ==> (#[trigger] tabs@[j]).id@ != tab_id@,
            None => forall|j: int|
                0 <= j < tabs@.len() ==> (#[trigger] tabs@[j]).id@ != tab_id@,
        },
{
    let mut i: usize = 0;
    while i < tabs.len()
        invariant
            i <= tabs@.len(),
            forall|j: int| 0 <= j < i ==> (#[trigger] tabs@[j]).id@ != tab_id@,
        decreases tabs@.len() - i,
    {
        if tabs[i].id == *tab_id {
            return Some(i);
        }
        i = i + 1;
    }
    None
}

/// Context carried per tab when a window or workspace is duplicated.
pub struct TabContext {
    pub tab_id: String,
    pub scrollback: Option<String>,
    pub cwd: Option<String>,
    pub ssh_command: Option<String>,
    pub remote_cwd: Option<String>,
}

impl Tab {
    /// A fresh tab with a generated identifier and everything else at
    /// its rest state.
    pub fn new(name: String) -> (t: Tab)
        ensures
            t.id@.len() == 36,
            t.name == name,
            t.pty_id is None,
            t.scrollback is None,
            !t.custom_name,
            t.restore_cwd is None,
            t.restore_ssh_command is None,
            t.restore_remote_cwd is None,
            t.auto_resume_cwd is None,
            t.auto_resume_ssh_command is None,
            t.auto_resume_remote_cwd is None,
            t.auto_resume_command is None,
            t.auto_resume_remembered_command is None,
            t.notes is None,
            t.notes_mode is None,
            !t.notes_open,
    {
        Tab {
            id: crate::bridge::fresh_id(),
            name,
            pty_id: None,
            scrollback: None,
            custom_name: false,
            restore_cwd: None,
            restore_ssh_command: None,
            restore_remote_cwd: None,
            auto_resume_cwd: None,
            auto_resume_ssh_command: None,
            auto_resume_remote_cwd: None,
            auto_resume_command: None,
            auto_resume_remembered_command: None,
            notes: None,
            notes_mode: None,
            notes_open: false,
            trigger_variables: HashMap::new(),
        }
    }
}

impl Pane {
    /// A fresh pane holding one terminal tab, which starts active.
    pub fn new(name: String) -> (p: Pane)
        ensures
            p.id@.len() == 36,
            p.name == name,
            p.tabs@.len() == 1,
            p.tabs@[0].name@ == "Terminal"@,
            p.active_tab_id matches Some(a) && a@ == p.tabs@[0].id@,
    {
        let tab = Tab::new(String::from_str("Terminal"));
        let tab_id = tab.id.clone();
        let mut tabs: Vec<Tab> = Vec::new();
        tabs.push(tab);
        Pane { id: crate::bridge::fresh_id(), name, tabs, active_tab_id: Some(tab_id) }
    }

    /// Index of the first tab with this identifier, if any.
    fn tab_index_of(&self, tab_id: &String) -> (r: Option<usize>)
        ensures
            match r {
                Some(i) => i < self.tabs@.len() && self.tabs@[i as int].id@ == tab_id@ && forall|
                    j: int,
                |
                    0 <= j < i ==> (#[trigger] self.tabs@[j]).id@ != tab_id@,
                None => forall|j: int|
                    0 <= j < self.tabs@.len() ==> (#[trigger] self.tabs@[j]).id@ != tab_id@,
            },
    {
        let mut i: usize = 0;
        while i < self.tabs.len()
            invariant
                i <= self.tabs@.len(),
                forall|j: int| 0 <= j < i ==> (#[trigger] self.tabs@[j]).id@ != tab_id@,
            decreases self.tabs@.len() - i,
        {
            if self.tabs[i].id == *tab_id {
                return Some(i);
            }
            i = i + 1;
        }
        None
    }

    /// Closes the tab with this identifier, if present: the tab leaves
    /// the list, and when it was the active one the previous (left)
    /// neighbour becomes active — the next tab when the first was
    /// closed, nothing when the pane is now empty.
    pub fn delete_tab(&mut self, tab_id: &String) -> (removed: bool)
        ensures
            !removed ==> *final(self) == *old(self) && (forall|j: int|
                0 <= j < old(self).tabs@.len() ==> (#[trigger] old(self).tabs@[j]).id@ != tab_id@),
            removed ==> exists|i: int|
                {
                    &&& 0 <= i < old(self).tabs@.len()
                    &&& (#[trigger] old(self).tabs@[i]).id@ == tab_id@
                    &&& forall|j: int| 0 <= j < i ==> (#[trigger] old(self).tabs@[j]).id@ != tab_id@
                    &&& final(self).tabs@ == old(self).tabs@.remove(i)
                    &&& final(self).id == old(self).id
                    &&& final(self).name == old(self).name
                    &&& final(self).active_tab_id == (match old(self).active_tab_id {
                        Some(a) => {
                            if a@ == tab_id@ {
                                if final(self).tabs@.len() == 0 {
                                    None::<String>
                                } else {
                                    let k: int = if i > 0 {
                                        i - 1
                                    } else {
                                        0
                                    };
                                    Some(final(self).tabs@[k].id)
                                }
                            } else {
                                old(self).active_tab_id
                            }
                        },
                        None => None::<String>,
                    })
                },
    {
        match self.tab_index_of(tab_id) {
            Some(i) => {
                let was_active = match &self.active_tab_id {
                    Some(a) => *a == *tab_id,
                    None => false,
                };
                let _ = self.tabs.remove(i);
                if was_active {
                    if self.tabs.len() == 0 {
                        self.active_tab_id = None;
                    } else {
                        let k: usize = if i > 0 {
                            i - 1
                        } else {
                            0
                        };
                        self.active_tab_id = Some(self.tabs[k].id.clone());
                    }
                }
                proof {
                    assert(0 <= i < old(self).tabs@.len() && (#[trigger] old(self).tabs@[
                    i as int]).id@ == tab_id@ && final(self).tabs@ == old(self).tabs@.remove(
                        i as int,
                    ));
                }
                true
            },
            None => false,
        }
    }

    /// Renames the tab with this identifier, if present; a supplied
    /// `custom_name` flag is recorded with it, marking a name the user
    /// chose.
    pub fn rename_tab(&mut self, tab_id: &String, name: String, custom_name: Option<bool>) -> (renamed:
        bool)
        ensures
            final(self).id == old(self).id,
            final(self).name == old(self).name,
            final(self).active_tab_id == old(self).active_tab_id,
            final(self).tabs@.len() == old(self).tabs@.len(),
            !renamed ==> *final(self) == *old(self) && (forall|j: int|
                0 <= j < old(self).tabs@.len() ==> (#[trigger] old(self).tabs@[j]).id@ != tab_id@),
            renamed ==> exists|i: int|
                {
                    &&& 0 <= i < old(self).tabs@.len()
                    &&& (#[trigger] old(self).tabs@[i]).id@ == tab_id@
                    &&& forall|j: int|
                        0 <= j < old(self).tabs@.len() && j != i ==> final(self).tabs@[j] == old(
                            self,
                        ).tabs@[j]
                    &&& final(self).tabs@[i].name == name
                    &&& final(self).tabs@[i].custom_name == (match custom_name {
                        Some(c) => c,
                        None => old(self).tabs@[i].custom_name,
                    })
                    &&& final(self).tabs@[i].id == old(self).tabs@[i].id
                    &&& final(self).tabs@[i].pty_id == old(self).tabs@[i].pty_id
                },
    {
        match self.tab_index_of(tab_id) {
            Some(i) => {
                let tab = &mut self.tabs[i];
                tab.name = name;
                match custom_name {
                    Some(c) => {
                        tab.custom_name = c;
                    },
                    None => {},
                }
                true
            },
            None => false,
        }
    }
}

} // verus!
