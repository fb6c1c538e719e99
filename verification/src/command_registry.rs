//! The actions that can be dispatched, and how the palette lists them.
use vstd::prelude::*;

use crate::text::{opt_text, texts};

verus! {

/// Every dispatchable action.
#[derive(Clone, Copy, Debug, PartialEq, Eq, Structural)]
pub enum CommandId {
    SwitchWorkspace(u64),
    FocusPanel(u64),
    FocusActiveWorkspace,
    FitActiveWorkspace,
    ToggleSidebar,
    ToggleHud,
    ToggleMinimap,
    ToggleFullscreenWindow,
    ToggleFullscreenPanel,
    ZoomReset,
    ZoomIn,
    ZoomOut,
    AlignWorkspacesHorizontally,
    NewPanel,
    OpenRemoteHosts,
    CreatePanelFromPreset(usize),
    ToggleSettings,
    ToggleSearch,
}

#[derive(Clone, Copy, Debug, PartialEq, Eq, Structural)]
pub enum Category {
    Workspace,
    Panel,
    Preset,
    Action,
}

impl Category {
    pub open spec fn heading(self) -> Seq<char> {
        match self {
            Category::Workspace => "WORKSPACES"@,
            Category::Panel => "PANELS"@,
            Category::Preset => "PRESETS"@,
            Category::Action => "ACTIONS"@,
        }
    }

    pub fn label(self) -> (label: &'static str)
        ensures
            label@ == self.heading(),
    {
        match self {
            Category::Workspace => "WORKSPACES",
            Category::Panel => "PANELS",
            Category::Preset => "PRESETS",
            Category::Action => "ACTIONS",
        }
    }
}

pub struct CommandEntry {
    pub id: CommandId,
    pub label: String,
    pub shortcut: Option<String>,
    /// Extra terms matched during filtering but not displayed.
    pub keywords: Vec<String>,
}

/// What an entry says.
pub struct EntryView {
    pub id: CommandId,
    pub label: Seq<char>,
    pub shortcut: Option<Seq<char>>,
    pub keywords: Seq<Seq<char>>,
}

impl View for CommandEntry {
    type V = EntryView;

    open spec fn view(&self) -> EntryView {
        EntryView {
            id: self.id,
            label: self.label@,
            shortcut: opt_text(self.shortcut),
            keywords: texts(self.keywords@),
        }
    }
}

pub open spec fn entry_views(entries: Seq<CommandEntry>) -> Seq<EntryView> {
    entries.map_values(|e: CommandEntry| e@)
}

/// The key bindings of the actions, each as it is displayed.
pub struct AppShortcuts {
    pub new_terminal: String,
    pub focus_active_workspace: String,
    pub fit_active_workspace: String,
    pub open_remote_hosts: String,
    pub toggle_sidebar: String,
    pub toggle_hud: String,
    pub toggle_minimap: String,
    pub fullscreen_window: String,
    pub fullscreen_panel: String,
    pub zoom_reset: String,
    pub zoom_in: String,
    pub zoom_out: String,
    pub align_workspaces_horizontally: String,
    pub toggle_settings: String,
    pub search: String,
}

pub open spec fn entry_of(
    id: CommandId,
    label: Seq<char>,
    shortcut: String,
    keywords: Seq<Seq<char>>,
) -> EntryView {
    EntryView { id, label, shortcut: Some(shortcut@), keywords }
}

/// The actions in the order in which the palette offers them.
pub open spec fn action_table(s: AppShortcuts) -> Seq<EntryView> {
    seq![
        entry_of(
            CommandId::NewPanel,
            "New Panel"@,
            s.new_terminal,
            seq!["create"@, "terminal"@, "add"@],
        ),
        entry_of(
            CommandId::FocusActiveWorkspace,
            "Focus Active Workspace"@,
            s.focus_active_workspace,
            seq!["workspace"@, "focus"@, "pan"@, "center"@],
        ),
        entry_of(
            CommandId::FitActiveWorkspace,
            "Fit Active Workspace"@,
            s.fit_active_workspace,
            seq!["workspace"@, "fit"@, "zoom"@, "frame"@],
        ),
        entry_of(
            CommandId::OpenRemoteHosts,
            "Remote Hosts"@,
            s.open_remote_hosts,
            seq!["ssh"@, "tailscale"@, "remote"@, "hosts"@, "nodes"@],
        ),
        entry_of(
            CommandId::ToggleSidebar,
            "Toggle Sidebar"@,
            s.toggle_sidebar,
            seq!["sidebar"@, "hide"@, "show"@],
        ),
        entry_of(
            CommandId::ToggleHud,
            "Toggle HUD"@,
            s.toggle_hud,
            seq!["heads"@, "up"@, "display"@, "info"@],
        ),
        entry_of(
            CommandId::ToggleMinimap,
            "Toggle Minimap"@,
            s.toggle_minimap,
            seq!["overview"@, "map"@],
        ),
        entry_of(
            CommandId::ToggleFullscreenWindow,
            "Toggle Fullscreen (Window)"@,
            s.fullscreen_window,
            seq!["maximize"@, "window"@, "fullscreen"@],
        ),
        entry_of(
            CommandId::ToggleFullscreenPanel,
            "Toggle Fullscreen (Panel)"@,
            s.fullscreen_panel,
            seq!["maximize"@, "panel"@, "fullscreen"@, "focus"@],
        ),
        entry_of(
            CommandId::ZoomReset,
            "Reset Zoom"@,
            s.zoom_reset,
            seq!["zoom"@, "reset"@, "100"@, "percent"@],
        ),
        entry_of(
            CommandId::ZoomIn,
            "Zoom In"@,
            s.zoom_in,
            seq!["zoom"@, "bigger"@, "enlarge"@],
        ),
        entry_of(
            CommandId::ZoomOut,
            "Zoom Out"@,
            s.zoom_out,
            seq!["zoom"@, "smaller"@, "shrink"@],
        ),
        entry_of(
            CommandId::AlignWorkspacesHorizontally,
            "Align Workspaces"@,
            s.align_workspaces_horizontally,
            seq!["arrange"@, "horizontal"@, "layout"@, "row"@],
        ),
        entry_of(
            CommandId::ToggleSettings,
            "Settings"@,
            s.toggle_settings,
            seq!["settings"@, "config"@, "preferences"@],
        ),
        entry_of(
            CommandId::ToggleSearch,
            "Search Terminals"@,
            s.search,
            seq!["find"@, "search"@, "grep"@, "text"@],
        ),
    ]
}

fn words(list: &[&str]) -> (owned: Vec<String>)
    ensures
        texts(owned@) == list@.map_values(|s: &str| s@),
{
    let mut owned: Vec<String> = Vec::new();
    let mut i: usize = 0;
    while i < list.len()
        invariant
            i <= list@.len(),
            owned@.len() == i,
            forall|j: int| 0 <= j < i ==> (#[trigger] owned@[j])@ == list@[j]@,
        decreases list@.len() - i,
    {
        owned.push(list[i].to_owned());
        i = i + 1;
    }
    assert(texts(owned@) =~= list@.map_values(|s: &str| s@));
    owned
}

fn entry(id: CommandId, label: &str, shortcut: &String, keywords: Vec<String>) -> (e: CommandEntry)
    ensures
        e@ == entry_of(id, label@, *shortcut, texts(keywords@)),
{
    CommandEntry { id, label: label.to_owned(), shortcut: Some(shortcut.clone()), keywords }
}

fn words2(a: &str, b: &str) -> (owned: Vec<String>)
    ensures
        texts(owned@) == seq![a@, b@],
{
    let owned = words([a, b].as_slice());
    assert(texts(owned@) =~= seq![a@, b@]);
    owned
}

fn words3(a: &str, b: &str, c: &str) -> (owned: Vec<String>)
    ensures
        texts(owned@) == seq![a@, b@, c@],
{
    let owned = words([a, b, c].as_slice());
    assert(texts(owned@) =~= seq![a@, b@, c@]);
    owned
}

fn words4(a: &str, b: &str, c: &str, d: &str) -> (owned: Vec<String>)
    ensures
        texts(owned@) == seq![a@, b@, c@, d@],
{
    let owned = words([a, b, c, d].as_slice());
    assert(texts(owned@) =~= seq![a@, b@, c@, d@]);
    owned
}

fn words5(a: &str, b: &str, c: &str, d: &str, e: &str) -> (owned: Vec<String>)
    ensures
        texts(owned@) == seq![a@, b@, c@, d@, e@],
{
    let owned = words([a, b, c, d, e].as_slice());
    assert(texts(owned@) =~= seq![a@, b@, c@, d@, e@]);
    owned
}

/// The action commands. Workspaces and panels are not among them: the palette
/// adds those when it is queried.
pub fn action_commands(shortcuts: &AppShortcuts) -> (entries: Vec<CommandEntry>)
    ensures
        entry_views(entries@) == action_table(*shortcuts),
{
    let mut list: Vec<CommandEntry> = Vec::new();
    list.push(
        entry(
            CommandId::NewPanel,
            "New Panel",
            &shortcuts.new_terminal,
            words3("create", "terminal", "add"),
        ),
    );
    list.push(
        entry(
            CommandId::FocusActiveWorkspace,
            "Focus Active Workspace",
            &shortcuts.focus_active_workspace,
            words4("workspace", "focus", "pan", "center"),
        ),
    );
    list.push(
        entry(
            CommandId::FitActiveWorkspace,
            "Fit Active Workspace",
            &shortcuts.fit_active_workspace,
            words4("workspace", "fit", "zoom", "frame"),
        ),
    );
    list.push(
        entry(
            CommandId::OpenRemoteHosts,
            "Remote Hosts",
            &shortcuts.open_remote_hosts,
            words5("ssh", "tailscale", "remote", "hosts", "nodes"),
        ),
    );
    list.push(
        entry(
            CommandId::ToggleSidebar,
            "Toggle Sidebar",
            &shortcuts.toggle_sidebar,
            words3("sidebar", "hide", "show"),
        ),
    );
    list.push(
        entry(
            CommandId::ToggleHud,
            "Toggle HUD",
            &shortcuts.toggle_hud,
            words4("heads", "up", "display", "info"),
        ),
    );
    list.push(
        entry(
            CommandId::ToggleMinimap,
            "Toggle Minimap",
            &shortcuts.toggle_minimap,
            words2("overview", "map"),
        ),
    );
    list.push(
        entry(
            CommandId::ToggleFullscreenWindow,
            "Toggle Fullscreen (Window)",
            &shortcuts.fullscreen_window,
            words3("maximize", "window", "fullscreen"),
        ),
    );
    list.push(
        entry(
            CommandId::ToggleFullscreenPanel,
            "Toggle Fullscreen (Panel)",
            &shortcuts.fullscreen_panel,
            words4("maximize", "panel", "fullscreen", "focus"),
        ),
    );
    list.push(
        entry(
            CommandId::ZoomReset,
            "Reset Zoom",
            &shortcuts.zoom_reset,
            words4("zoom", "reset", "100", "percent"),
        ),
    );
    list.push(
        entry(
            CommandId::ZoomIn,
            "Zoom In",
            &shortcuts.zoom_in,
            words3("zoom", "bigger", "enlarge"),
        ),
    );
    list.push(
        entry(
            CommandId::ZoomOut,
            "Zoom Out",
            &shortcuts.zoom_out,
            words3("zoom", "smaller", "shrink"),
        ),
    );
    list.push(
        entry(
            CommandId::AlignWorkspacesHorizontally,
            "Align Workspaces",
            &shortcuts.align_workspaces_horizontally,
            words4("arrange", "horizontal", "layout", "row"),
        ),
    );
    list.push(
        entry(
            CommandId::ToggleSettings,
            "Settings",
            &shortcuts.toggle_settings,
            words3("settings", "config", "preferences"),
        ),
    );
    list.push(
        entry(
            CommandId::ToggleSearch,
            "Search Terminals",
            &shortcuts.search,
            words4("find", "search", "grep", "text"),
        ),
    );
    assert(entry_views(list@) =~= action_table(*shortcuts));
    list
}

/// Every action has a shortcut.
pub proof fn law_every_action_has_a_shortcut(shortcuts: AppShortcuts, i: int)
    requires
        0 <= i < action_table(shortcuts).len(),
    ensures
        action_table(shortcuts)[i].shortcut is Some,
{
}

/// A number that tells the labels of the actions apart.
spec fn label_key(label: Seq<char>) -> int {
    label.len() * 1000 + (if label.len() == 14 {
        label[7] as int
    } else {
        label[0] as int
    })
}

/// No two actions share a label or an id.
pub proof fn law_action_labels_are_unique(shortcuts: AppShortcuts, i: int, j: int)
    requires
        0 <= i < j < action_table(shortcuts).len(),
    ensures
        action_table(shortcuts)[i].label != action_table(shortcuts)[j].label,
        action_table(shortcuts)[i].id != action_table(shortcuts)[j].id,
{
    reveal_strlit("New Panel");
    reveal_strlit("Focus Active Workspace");
    reveal_strlit("Fit Active Workspace");
    reveal_strlit("Remote Hosts");
    reveal_strlit("Toggle Sidebar");
    reveal_strlit("Toggle HUD");
    reveal_strlit("Toggle Minimap");
    reveal_strlit("Toggle Fullscreen (Window)");
    reveal_strlit("Toggle Fullscreen (Panel)");
    reveal_strlit("Reset Zoom");
    reveal_strlit("Zoom In");
    reveal_strlit("Zoom Out");
    reveal_strlit("Align Workspaces");
    reveal_strlit("Settings");
    reveal_strlit("Search Terminals");
    let table = action_table(shortcuts);
    assert(table[0].label == "New Panel"@ && label_key("New Panel"@) == 9078);
    assert(table[1].label == "Focus Active Workspace"@ && label_key("Focus Active Workspace"@) == 22070);
    assert(table[2].label == "Fit Active Workspace"@ && label_key("Fit Active Workspace"@) == 20070);
    assert(table[3].label == "Remote Hosts"@ && label_key("Remote Hosts"@) == 12082);
    assert(table[4].label == "Toggle Sidebar"@ && label_key("Toggle Sidebar"@) == 14083);
    assert(table[5].label == "Toggle HUD"@ && label_key("Toggle HUD"@) == 10084);
    assert(table[6].label == "Toggle Minimap"@ && label_key("Toggle Minimap"@) == 14077);
    assert(table[7].label == "Toggle Fullscreen (Window)"@ && label_key("Toggle Fullscreen (Window)"@) == 26084);
    assert(table[8].label == "Toggle Fullscreen (Panel)"@ && label_key("Toggle Fullscreen (Panel)"@) == 25084);
    assert(table[9].label == "Reset Zoom"@ && label_key("Reset Zoom"@) == 10082);
    assert(table[10].label == "Zoom In"@ && label_key("Zoom In"@) == 7090);
    assert(table[11].label == "Zoom Out"@ && label_key("Zoom Out"@) == 8090);
    assert(table[12].label == "Align Workspaces"@ && label_key("Align Workspaces"@) == 16065);
    assert(table[13].label == "Settings"@ && label_key("Settings"@) == 8083);
    assert(table[14].label == "Search Terminals"@ && label_key("Search Terminals"@) == 16083);
    assert(label_key(table[i].label) != label_key(table[j].label));
}

/// Each action is offered under its own name, with its own key binding and the
/// words that it is found by.
pub proof fn law_actions_are_offered_by_name(id: CommandId, s: AppShortcuts)
    ensures
        id is NewPanel ==> (exists|k: int|
            0 <= k < action_table(s).len() && #[trigger] action_table(s)[k] == (EntryView {
                id,
                label: "New Panel"@,
                shortcut: Some(s.new_terminal@),
                keywords: seq!["create"@, "terminal"@, "add"@],
            })),
        id is FocusActiveWorkspace ==> (exists|k: int|
            0 <= k < action_table(s).len() && #[trigger] action_table(s)[k] == (EntryView {
                id,
                label: "Focus Active Workspace"@,
                shortcut: Some(s.focus_active_workspace@),
                keywords: seq!["workspace"@, "focus"@, "pan"@, "center"@],
            })),
        id is FitActiveWorkspace ==> (exists|k: int|
            0 <= k < action_table(s).len() && #[trigger] action_table(s)[k] == (EntryView {
                id,
                label: "Fit Active Workspace"@,
                shortcut: Some(s.fit_active_workspace@),
                keywords: seq!["workspace"@, "fit"@, "zoom"@, "frame"@],
            })),
        id is OpenRemoteHosts ==> (exists|k: int|
            0 <= k < action_table(s).len() && #[trigger] action_table(s)[k] == (EntryView {
                id,
                label: "Remote Hosts"@,
                shortcut: Some(s.open_remote_hosts@),
                keywords: seq!["ssh"@, "tailscale"@, "remote"@, "hosts"@, "nodes"@],
            })),
        id is ToggleSidebar ==> (exists|k: int|
            0 <= k < action_table(s).len() && #[trigger] action_table(s)[k] == (EntryView {
                id,
                label: "Toggle Sidebar"@,
                shortcut: Some(s.toggle_sidebar@),
                keywords: seq!["sidebar"@, "hide"@, "show"@],
            })),
        id is ToggleHud ==> (exists|k: int|
            0 <= k < action_table(s).len() && #[trigger] action_table(s)[k] == (EntryView {
                id,
                label: "Toggle HUD"@,
                shortcut: Some(s.toggle_hud@),
                keywords: seq!["heads"@, "up"@, "display"@, "info"@],
            })),
        id is ToggleMinimap ==> (exists|k: int|
            0 <= k < action_table(s).len() && #[trigger] action_table(s)[k] == (EntryView {
                id,
                label: "Toggle Minimap"@,
                shortcut: Some(s.toggle_minimap@),
                keywords: seq!["overview"@, "map"@],
            })),
        id is ToggleFullscreenWindow ==> (exists|k: int|
            0 <= k < action_table(s).len() && #[trigger] action_table(s)[k] == (EntryView {
                id,
                label: "Toggle Fullscreen (Window)"@,
                shortcut: Some(s.fullscreen_window@),
                keywords: seq!["maximize"@, "window"@, "fullscreen"@],
            })),
        id is ToggleFullscreenPanel ==> (exists|k: int|
            0 <= k < action_table(s).len() && #[trigger] action_table(s)[k] == (EntryView {
                id,
                label: "Toggle Fullscreen (Panel)"@,
                shortcut: Some(s.fullscreen_panel@),
                keywords: seq!["maximize"@, "panel"@, "fullscreen"@, "focus"@],
            })),
        id is ZoomReset ==> (exists|k: int|
            0 <= k < action_table(s).len() && #[trigger] action_table(s)[k] == (EntryView {
                id,
                label: "Reset Zoom"@,
                shortcut: Some(s.zoom_reset@),
                keywords: seq!["zoom"@, "reset"@, "100"@, "percent"@],
            })),
        id is ZoomIn ==> (exists|k: int|
            0 <= k < action_table(s).len() && #[trigger] action_table(s)[k] == (EntryView {
                id,
                label: "Zoom In"@,
                shortcut: Some(s.zoom_in@),
                keywords: seq!["zoom"@, "bigger"@, "enlarge"@],
            })),
        id is ZoomOut ==> (exists|k: int|
            0 <= k < action_table(s).len() && #[trigger] action_table(s)[k] == (EntryView {
                id,
                label: "Zoom Out"@,
                shortcut: Some(s.zoom_out@),
                keywords: seq!["zoom"@, "smaller"@, "shrink"@],
            })),
        id is AlignWorkspacesHorizontally ==> (exists|k: int|
            0 <= k < action_table(s).len() && #[trigger] action_table(s)[k] == (EntryView {
                id,
                label: "Align Workspaces"@,
                shortcut: Some(s.align_workspaces_horizontally@),
                keywords: seq!["arrange"@, "horizontal"@, "layout"@, "row"@],
            })),
        id is ToggleSettings ==> (exists|k: int|
            0 <= k < action_table(s).len() && #[trigger] action_table(s)[k] == (EntryView {
                id,
                label: "Settings"@,
                shortcut: Some(s.toggle_settings@),
                keywords: seq!["settings"@, "config"@, "preferences"@],
            })),
        id is ToggleSearch ==> (exists|k: int|
            0 <= k < action_table(s).len() && #[trigger] action_table(s)[k] == (EntryView {
                id,
                label: "Search Terminals"@,
                shortcut: Some(s.search@),
                keywords: seq!["find"@, "search"@, "grep"@, "text"@],
            })),
        action_table(s).len() == 15,
{
    let table = action_table(s);
    assert(table[0].id is NewPanel);
    assert(table[1].id is FocusActiveWorkspace);
    assert(table[2].id is FitActiveWorkspace);
    assert(table[3].id is OpenRemoteHosts);
    assert(table[4].id is ToggleSidebar);
    assert(table[5].id is ToggleHud);
    assert(table[6].id is ToggleMinimap);
    assert(table[7].id is ToggleFullscreenWindow);
    assert(table[8].id is ToggleFullscreenPanel);
    assert(table[9].id is ZoomReset);
    assert(table[10].id is ZoomIn);
    assert(table[11].id is ZoomOut);
    assert(table[12].id is AlignWorkspacesHorizontally);
    assert(table[13].id is ToggleSettings);
    assert(table[14].id is ToggleSearch);
}

/// A heading names what stands under it.
pub proof fn law_headings_name_their_category(category: Category)
    ensures
        category is Workspace ==> category.heading() == "WORKSPACES"@,
        category is Panel ==> category.heading() == "PANELS"@,
        category is Preset ==> category.heading() == "PRESETS"@,
        category is Action ==> category.heading() == "ACTIONS"@,
{
}

/// What is said of an action is said of what it holds.
pub proof fn law_command_entry_is_seen_as_it_is(value: CommandEntry)
    ensures
        value@.id == value.id,
        value@.label == value.label@,
        value@.shortcut == opt_text(value.shortcut),
        value@.keywords == texts(value.keywords@),
{
}

/// Actions are seen one by one, in their order.
pub proof fn law_actions_are_seen_in_order(list: Seq<CommandEntry>, k: int)
    requires
        0 <= k < list.len(),
    ensures
        entry_views(list).len() == list.len(),
        entry_views(list)[k] == list[k]@,
{
}

} // verus!
