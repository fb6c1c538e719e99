//! The command palette: a query over workspaces, panels and actions.
use vstd::prelude::*;

use crate::command_registry::{Category, CommandEntry, CommandId};
use crate::text::{
    ascii_lowercase, chars_of, concat2, concat3, copy_opt, decimal, decimal_of, find_last,
    last_index, lowercased, opt_text, string_of, texts, trim_start,
};

verus! {

/// A colour by its red, green, blue and alpha.
#[derive(Clone, Copy, Debug, PartialEq, Eq, Structural)]
pub struct Color {
    pub r: u8,
    pub g: u8,
    pub b: u8,
    pub a: u8,
}

pub struct WorkspaceEntry {
    pub id: u64,
    pub name: String,
    pub color: Color,
    pub panel_count: usize,
    pub is_active: bool,
}

pub struct PanelEntry {
    pub id: u64,
    pub title: String,
    pub workspace_name: String,
    pub cwd: Option<String>,
}

pub struct CommandPalette {
    pub query: String,
    pub selected: usize,
    pub opened_at_ms: u64,
}

#[derive(Clone, Copy, Debug, PartialEq, Eq, Structural)]
pub enum PaletteAction {
    Idle,
    Execute(CommandId),
    Cancelled,
}

#[derive(Clone, Copy, Debug, PartialEq, Eq, Structural)]
pub enum PaletteMode {
    All,
    ActionsOnly,
    PanelsOnly,
}

/// A row of the palette, whatever it stands for.
pub struct ResultItem {
    pub id: CommandId,
    pub label: String,
    pub detail: String,
    pub shortcut: Option<String>,
    pub category: Category,
    pub accent: Option<Color>,
}

/// What a row says.
pub struct ItemView {
    pub id: CommandId,
    pub label: Seq<char>,
    pub detail: Seq<char>,
    pub shortcut: Option<Seq<char>>,
    pub category: Category,
    pub accent: Option<Color>,
}

impl View for ResultItem {
    type V = ItemView;

    open spec fn view(&self) -> ItemView {
        ItemView {
            id: self.id,
            label: self.label@,
            detail: self.detail@,
            shortcut: opt_text(self.shortcut),
            category: self.category,
            accent: self.accent,
        }
    }
}

pub open spec fn item_views(items: Seq<ResultItem>) -> Seq<ItemView> {
    items.map_values(|i: ResultItem| i@)
}

/// The mode that a query asks for.
pub open spec fn mode_of(query: Seq<char>) -> PaletteMode {
    let t = trim_start(query);
    if t.len() > 0 && t[0] == '>' {
        PaletteMode::ActionsOnly
    } else if t.len() > 0 && t[0] == '@' {
        PaletteMode::PanelsOnly
    } else {
        PaletteMode::All
    }
}

/// What a query searches for, without the mark of its mode.
pub open spec fn search_of(query: Seq<char>) -> Seq<char> {
    let t = trim_start(query);
    if mode_of(query) == PaletteMode::All {
        t
    } else {
        trim_start(t.skip(1))
    }
}

fn skip_blanks(chars: &[char], from: usize) -> (start: usize)
    requires
        from <= chars@.len(),
    ensures
        from <= start <= chars@.len(),
        chars@.skip(start as int) == trim_start(chars@.skip(from as int)),
{
    let len: usize = chars.len();
    let mut start: usize = from;
    while start < len && crate::text::is_white_space(chars[start])
        invariant
            len == chars@.len(),
            from <= start <= len,
            forall|i: int| from <= i < start ==> crate::text::white_space(#[trigger] chars@[i]),
        decreases len - start,
    {
        start = start + 1;
    }
    proof {
        let rest = chars@.skip(from as int);
        assert forall|i: int| 0 <= i < start - from implies crate::text::white_space(
            #[trigger] rest[i],
        ) by {
            assert(rest[i] == chars@[i + from]);
        }
        crate::text::lemma_trim_start(rest, start - from);
        assert(rest.skip(start - from) =~= chars@.skip(start as int));
    }
    start
}

pub fn parse_mode(query: &str) -> (parsed: (PaletteMode, String))
    ensures
        parsed.0 == mode_of(query@),
        parsed.1@ == search_of(query@),
{
    let chars = chars_of(query);
    let len: usize = chars.len();
    assert(query@.skip(0) =~= query@);
    let start = skip_blanks(chars.as_slice(), 0);
    let ghost t = query@.skip(start as int);
    if start < len && (chars[start] == '>' || chars[start] == '@') {
        assert(t[0] == chars@[start as int]);
        let mode = if chars[start] == '>' {
            PaletteMode::ActionsOnly
        } else {
            PaletteMode::PanelsOnly
        };
        assert(t.skip(1) =~= query@.skip(start + 1));
        let from = skip_blanks(chars.as_slice(), start + 1);
        let rest = string_of(chars.as_slice(), from, len);
        assert(rest@ =~= query@.skip(from as int));
        (mode, rest)
    } else {
        let rest = string_of(chars.as_slice(), start, len);
        assert(rest@ =~= t);
        (PaletteMode::All, rest)
    }
}

/// Every scalar of `needle` stands in `haystack`, in order.
pub open spec fn subsequence(haystack: Seq<char>, needle: Seq<char>) -> bool
    decreases haystack.len(),
{
    if needle.len() == 0 {
        true
    } else if haystack.len() == 0 {
        false
    } else if haystack[0] == needle[0] {
        subsequence(haystack.drop_first(), needle.drop_first())
    } else {
        subsequence(haystack.drop_first(), needle)
    }
}

pub fn fuzzy_contains(haystack: &str, needle: &str) -> (yes: bool)
    ensures
        yes == subsequence(haystack@, needle@),
{
    let hay = chars_of(haystack);
    let wanted = chars_of(needle);
    let mut i: usize = 0;
    let mut j: usize = 0;
    assert(haystack@.skip(0) =~= haystack@);
    assert(needle@.skip(0) =~= needle@);
    while j < wanted.len()
        invariant
            hay@ == haystack@,
            wanted@ == needle@,
            i <= hay@.len(),
            j <= wanted@.len(),
            subsequence(haystack@, needle@) == subsequence(
                haystack@.skip(i as int),
                needle@.skip(j as int),
            ),
        decreases hay@.len() - i,
    {
        if i >= hay.len() {
            return false;
        }
        assert(haystack@.skip(i as int).drop_first() =~= haystack@.skip(i + 1));
        assert(needle@.skip(j as int).drop_first() =~= needle@.skip(j + 1));
        if hay[i] == wanted[j] {
            j = j + 1;
        }
        i = i + 1;
    }
    true
}

/// `places` says where in `haystack` the scalars of `needle` stand.
pub open spec fn embeds(haystack: Seq<char>, needle: Seq<char>, places: Seq<int>) -> bool {
    &&& places.len() == needle.len()
    &&& forall|k: int|
        0 <= k < places.len() ==> 0 <= #[trigger] places[k] < haystack.len()
            && haystack[places[k]] == needle[k]
    &&& forall|k: int, m: int| 0 <= k < m < places.len() ==> places[k] < places[m]
}

/// A fuzzy match is just that the scalars of the needle can be found in the
/// haystack from left to right, one behind the other.
pub proof fn law_fuzzy_match_is_a_subsequence(haystack: Seq<char>, needle: Seq<char>)
    ensures
        subsequence(haystack, needle) <==> exists|places: Seq<int>|
            #[trigger] embeds(haystack, needle, places),
{
    if subsequence(haystack, needle) {
        lemma_subsequence_embeds(haystack, needle);
    }
    if exists|places: Seq<int>| #[trigger] embeds(haystack, needle, places) {
        let places = choose|places: Seq<int>| #[trigger] embeds(haystack, needle, places);
        lemma_embeds_subsequence(haystack, needle, places);
    }
}

proof fn lemma_subsequence_embeds(haystack: Seq<char>, needle: Seq<char>)
    requires
        subsequence(haystack, needle),
    ensures
        exists|places: Seq<int>| #[trigger] embeds(haystack, needle, places),
    decreases haystack.len(),
{
    if needle.len() == 0 {
        assert(embeds(haystack, needle, Seq::empty()));
    } else {
        let rest = haystack.drop_first();
        let hit = haystack[0] == needle[0];
        let left = if hit {
            needle.drop_first()
        } else {
            needle
        };
        lemma_subsequence_embeds(rest, left);
        let inner = choose|places: Seq<int>| #[trigger] embeds(rest, left, places);
        let shifted = inner.map_values(|p: int| p + 1);
        let places = if hit {
            seq![0int] + shifted
        } else {
            shifted
        };
        assert forall|k: int| 0 <= k < places.len() implies 0 <= #[trigger] places[k]
            < haystack.len() && haystack[places[k]] == needle[k] by {
            if hit {
                if k > 0 {
                    assert(places[k] == inner[k - 1] + 1);
                    assert(rest[inner[k - 1]] == left[k - 1]);
                }
            } else {
                assert(places[k] == inner[k] + 1);
                assert(rest[inner[k]] == left[k]);
            }
        }
        assert forall|k: int, m: int| 0 <= k < m < places.len() implies places[k] < places[m] by {
            if hit {
                if k > 0 {
                    assert(inner[k - 1] < inner[m - 1]);
                } else {
                    assert(places[m] == inner[m - 1] + 1);
                }
            } else {
                assert(inner[k] < inner[m]);
            }
        }
        assert(embeds(haystack, needle, places));
    }
}

proof fn lemma_embeds_subsequence(haystack: Seq<char>, needle: Seq<char>, places: Seq<int>)
    requires
        embeds(haystack, needle, places),
    ensures
        subsequence(haystack, needle),
    decreases haystack.len(),
{
    if needle.len() > 0 {
        assert(0 <= places[0] < haystack.len());
        let rest = haystack.drop_first();
        if haystack[0] == needle[0] {
            let left = needle.drop_first();
            let inner = Seq::new(left.len(), |k: int| places[k + 1] - 1);
            assert forall|k: int| 0 <= k < inner.len() implies 0 <= #[trigger] inner[k] < rest.len()
                && rest[inner[k]] == left[k] by {
                assert(places[0] < places[k + 1]);
                assert(haystack[places[k + 1]] == needle[k + 1]);
            }
            assert forall|k: int, m: int| 0 <= k < m < inner.len() implies inner[k] < inner[m] by {
                assert(places[k + 1] < places[m + 1]);
            }
            lemma_embeds_subsequence(rest, left, inner);
        } else {
            let inner = places.map_values(|p: int| p - 1);
            assert(places[0] != 0);
            assert forall|k: int| 0 <= k < inner.len() implies 0 <= #[trigger] inner[k] < rest.len()
                && rest[inner[k]] == needle[k] by {
                if k > 0 {
                    assert(places[0] < places[k]);
                }
                assert(haystack[places[k]] == needle[k]);
            }
            assert forall|k: int, m: int| 0 <= k < m < inner.len() implies inner[k] < inner[m] by {
                assert(places[k] < places[m]);
            }
            lemma_embeds_subsequence(rest, needle, inner);
        }
    }
}

/// `query` fuzzily matches the label or one of the extra terms, whatever their
/// ASCII case.
pub open spec fn query_matches(
    query: Seq<char>,
    label: Seq<char>,
    extras: Seq<Seq<char>>,
) -> bool {
    ||| query.len() == 0
    ||| subsequence(ascii_lowercase(label), query)
    ||| exists|i: int|
        0 <= i < extras.len() && subsequence(ascii_lowercase(#[trigger] extras[i]), query)
}

pub fn matches_query(query: &str, label: &str, extras: &[&str]) -> (yes: bool)
    ensures
        yes == query_matches(query@, label@, extras@.map_values(|s: &str| s@)),
{
    if query.is_empty() {
        return true;
    }
    if fuzzy_contains(lowercased(label).as_str(), query) {
        return true;
    }
    let ghost terms = extras@.map_values(|s: &str| s@);
    let mut i: usize = 0;
    while i < extras.len()
        invariant
            i <= extras@.len(),
            terms == extras@.map_values(|s: &str| s@),
            forall|j: int|
                0 <= j < i ==> !subsequence(ascii_lowercase(#[trigger] terms[j]), query@),
        decreases extras@.len() - i,
    {
        assert(terms[i as int] == extras@[i as int]@);
        if fuzzy_contains(lowercased(extras[i]).as_str(), query) {
            return true;
        }
        i = i + 1;
    }
    false
}

/// The last two components of `path`.
pub open spec fn short_path(path: Seq<char>) -> Seq<char> {
    let last = last_index(path, '/');
    if last < 0 {
        path
    } else {
        let prev = last_index(path.take(last), '/');
        if prev >= 0 {
            path.skip(prev + 1)
        } else {
            path.skip(last + 1)
        }
    }
}

pub fn shorten_path(path: &str) -> (short: String)
    ensures
        short@ == short_path(path@),
{
    let chars = chars_of(path);
    let len: usize = chars.len();
    match find_last(chars.as_slice(), '/') {
        None => path.to_owned(),
        Some(last) => {
            let head = string_of(chars.as_slice(), 0, last);
            assert(head@ =~= path@.take(last as int));
            let head_chars = chars_of(head.as_str());
            let from: usize = match find_last(head_chars.as_slice(), '/') {
                Some(prev) => prev + 1,
                None => last + 1,
            };
            let short = string_of(chars.as_slice(), from, len);
            assert(short@ =~= path@.skip(from as int));
            short
        },
    }
}

pub open spec fn panel_detail(cwd: Option<Seq<char>>, workspace_name: Seq<char>) -> Seq<char> {
    match cwd {
        Some(path) => short_path(path) + "  "@ + workspace_name,
        None => workspace_name,
    }
}

pub fn compact_detail(cwd: &Option<String>, workspace_name: &str) -> (detail: String)
    ensures
        detail@ == panel_detail(opt_text(*cwd), workspace_name@),
{
    match cwd {
        Some(path) => concat3(shorten_path(path.as_str()).as_str(), "  ", workspace_name),
        None => workspace_name.to_owned(),
    }
}

pub open spec fn workspace_detail(panel_count: nat, is_active: bool) -> Seq<char> {
    decimal(panel_count) + (if is_active {
        " panels  active"@
    } else {
        " panels"@
    })
}

pub open spec fn workspace_item(ws: WorkspaceEntry) -> ItemView {
    ItemView {
        id: CommandId::SwitchWorkspace(ws.id),
        label: ws.name@,
        detail: workspace_detail(ws.panel_count as nat, ws.is_active),
        shortcut: None,
        category: Category::Workspace,
        accent: Some(ws.color),
    }
}

/// What a panel is found by besides its title.
pub open spec fn panel_terms(panel: PanelEntry) -> Seq<Seq<char>> {
    match panel.cwd {
        Some(cwd) => seq![cwd@, panel.workspace_name@],
        None => seq![panel.workspace_name@],
    }
}

pub open spec fn panel_item(panel: PanelEntry) -> ItemView {
    ItemView {
        id: CommandId::FocusPanel(panel.id),
        label: panel.title@,
        detail: panel_detail(opt_text(panel.cwd), panel.workspace_name@),
        shortcut: None,
        category: Category::Panel,
        accent: None,
    }
}

pub open spec fn action_item(action: CommandEntry) -> ItemView {
    ItemView {
        id: action.id,
        label: action.label@,
        detail: Seq::empty(),
        shortcut: opt_text(action.shortcut),
        category: Category::Action,
        accent: None,
    }
}

pub open spec fn workspace_items(list: Seq<WorkspaceEntry>, query: Seq<char>) -> Seq<ItemView>
    decreases list.len(),
{
    if list.len() == 0 {
        Seq::empty()
    } else if query_matches(query, list.last().name@, Seq::empty()) {
        workspace_items(list.drop_last(), query).push(workspace_item(list.last()))
    } else {
        workspace_items(list.drop_last(), query)
    }
}

pub open spec fn panel_items(list: Seq<PanelEntry>, query: Seq<char>) -> Seq<ItemView>
    decreases list.len(),
{
    if list.len() == 0 {
        Seq::empty()
    } else if query_matches(query, list.last().title@, panel_terms(list.last())) {
        panel_items(list.drop_last(), query).push(panel_item(list.last()))
    } else {
        panel_items(list.drop_last(), query)
    }
}

pub open spec fn action_items(list: Seq<CommandEntry>, query: Seq<char>) -> Seq<ItemView>
    decreases list.len(),
{
    if list.len() == 0 {
        Seq::empty()
    } else if query_matches(query, list.last().label@, texts(list.last().keywords@)) {
        action_items(list.drop_last(), query).push(action_item(list.last()))
    } else {
        action_items(list.drop_last(), query)
    }
}

/// The rows for a query: workspaces, then panels, then actions, as far as the
/// mode admits them.
pub open spec fn results_for(
    mode: PaletteMode,
    query: Seq<char>,
    workspaces: Seq<WorkspaceEntry>,
    panels: Seq<PanelEntry>,
    actions: Seq<CommandEntry>,
) -> Seq<ItemView> {
    let q = ascii_lowercase(query);
    (if mode == PaletteMode::All {
        workspace_items(workspaces, q)
    } else {
        Seq::empty()
    }) + (if mode != PaletteMode::ActionsOnly {
        panel_items(panels, q)
    } else {
        Seq::empty()
    }) + (if mode != PaletteMode::PanelsOnly {
        action_items(actions, q)
    } else {
        Seq::empty()
    })
}

fn term_refs(terms: &Vec<String>) -> (refs: Vec<&str>)
    ensures
        refs@.map_values(|s: &str| s@) == texts(terms@),
{
    let mut refs: Vec<&str> = Vec::new();
    let mut i: usize = 0;
    while i < terms.len()
        invariant
            i <= terms@.len(),
            refs@.len() == i,
            forall|j: int| 0 <= j < i ==> (#[trigger] refs@[j])@ == terms@[j]@,
        decreases terms@.len() - i,
    {
        refs.push(terms[i].as_str());
        i = i + 1;
    }
    assert(refs@.map_values(|s: &str| s@) =~= texts(terms@));
    refs
}

fn push_workspaces(items: &mut Vec<ResultItem>, query: &str, workspaces: &Vec<WorkspaceEntry>)
    ensures
        item_views(final(items)@) == item_views(old(items)@) + workspace_items(
            workspaces@,
            query@,
        ),
{
    let ghost before = item_views(items@);
    let mut i: usize = 0;
    assert(item_views(items@) =~= before + workspace_items(workspaces@.take(0), query@));
    while i < workspaces.len()
        invariant
            i <= workspaces@.len(),
            item_views(items@) == before + workspace_items(workspaces@.take(i as int), query@),
        decreases workspaces@.len() - i,
    {
        let ghost done = item_views(items@);
        assert(workspaces@.take(i + 1).drop_last() =~= workspaces@.take(i as int));
        let ws = &workspaces[i];
        let none: Vec<&str> = Vec::new();
        assert(none@.map_values(|s: &str| s@) =~= Seq::<Seq<char>>::empty());
        if matches_query(query, ws.name.as_str(), none.as_slice()) {
            let detail = concat2(
                decimal_of(ws.panel_count as u64).as_str(),
                if ws.is_active {
                    " panels  active"
                } else {
                    " panels"
                },
            );
            items.push(
                ResultItem {
                    id: CommandId::SwitchWorkspace(ws.id),
                    label: ws.name.clone(),
                    detail,
                    shortcut: None,
                    category: Category::Workspace,
                    accent: Some(ws.color),
                },
            );
            assert(item_views(items@) =~= done.push(workspace_item(*ws)));
        }
        assert(item_views(items@) =~= before + workspace_items(workspaces@.take(i + 1), query@));
        i = i + 1;
    }
    assert(workspaces@.take(i as int) =~= workspaces@);
}

fn push_panels(items: &mut Vec<ResultItem>, query: &str, panels: &Vec<PanelEntry>)
    ensures
        item_views(final(items)@) == item_views(old(items)@) + panel_items(panels@, query@),
{
    let ghost before = item_views(items@);
    let mut i: usize = 0;
    assert(item_views(items@) =~= before + panel_items(panels@.take(0), query@));
    while i < panels.len()
        invariant
            i <= panels@.len(),
            item_views(items@) == before + panel_items(panels@.take(i as int), query@),
        decreases panels@.len() - i,
    {
        let ghost done = item_views(items@);
        assert(panels@.take(i + 1).drop_last() =~= panels@.take(i as int));
        let panel = &panels[i];
        let mut terms: Vec<&str> = Vec::new();
        if let Some(cwd) = &panel.cwd {
            terms.push(cwd.as_str());
        }
        terms.push(panel.workspace_name.as_str());
        assert(terms@.map_values(|s: &str| s@) =~= panel_terms(*panel));
        if matches_query(query, panel.title.as_str(), terms.as_slice()) {
            items.push(
                ResultItem {
                    id: CommandId::FocusPanel(panel.id),
                    label: panel.title.clone(),
                    detail: compact_detail(&panel.cwd, panel.workspace_name.as_str()),
                    shortcut: None,
                    category: Category::Panel,
                    accent: None,
                },
            );
            assert(item_views(items@) =~= done.push(panel_item(*panel)));
        }
        assert(item_views(items@) =~= before + panel_items(panels@.take(i + 1), query@));
        i = i + 1;
    }
    assert(panels@.take(i as int) =~= panels@);
}

fn push_actions(items: &mut Vec<ResultItem>, query: &str, actions: &Vec<CommandEntry>)
    ensures
        item_views(final(items)@) == item_views(old(items)@) + action_items(actions@, query@),
{
    let ghost before = item_views(items@);
    let mut i: usize = 0;
    assert(item_views(items@) =~= before + action_items(actions@.take(0), query@));
    while i < actions.len()
        invariant
            i <= actions@.len(),
            item_views(items@) == before + action_items(actions@.take(i as int), query@),
        decreases actions@.len() - i,
    {
        let ghost done = item_views(items@);
        assert(actions@.take(i + 1).drop_last() =~= actions@.take(i as int));
        let action = &actions[i];
        let terms = term_refs(&action.keywords);
        if matches_query(query, action.label.as_str(), terms.as_slice()) {
            items.push(
                ResultItem {
                    id: action.id,
                    label: action.label.clone(),
                    detail: String::new(),
                    shortcut: copy_opt(&action.shortcut),
                    category: Category::Action,
                    accent: None,
                },
            );
            assert(item_views(items@) =~= done.push(action_item(*action)));
        }
        assert(item_views(items@) =~= before + action_items(actions@.take(i + 1), query@));
        i = i + 1;
    }
    assert(actions@.take(i as int) =~= actions@);
}

pub fn build_results(
    mode: PaletteMode,
    query: &str,
    workspaces: &Vec<WorkspaceEntry>,
    panels: &Vec<PanelEntry>,
    actions: &Vec<CommandEntry>,
) -> (items: Vec<ResultItem>)
    ensures
        item_views(items@) == results_for(mode, query@, workspaces@, panels@, actions@),
{
    let lower = lowercased(query);
    let mut items: Vec<ResultItem> = Vec::new();
    if mode == PaletteMode::All {
        push_workspaces(&mut items, lower.as_str(), workspaces);
    }
    if mode == PaletteMode::All || mode == PaletteMode::PanelsOnly {
        push_panels(&mut items, lower.as_str(), panels);
    }
    if mode == PaletteMode::All || mode == PaletteMode::ActionsOnly {
        push_actions(&mut items, lower.as_str(), actions);
    }
    assert(item_views(items@) =~= results_for(mode, query@, workspaces@, panels@, actions@));
    items
}

proof fn lemma_item_categories(
    workspaces: Seq<WorkspaceEntry>,
    panels: Seq<PanelEntry>,
    actions: Seq<CommandEntry>,
    query: Seq<char>,
)
    ensures
        forall|i: int|
            0 <= i < workspace_items(workspaces, query).len() ==> (#[trigger] workspace_items(
                workspaces,
                query,
            )[i]).category == Category::Workspace,
        forall|i: int|
            0 <= i < panel_items(panels, query).len() ==> (#[trigger] panel_items(
                panels,
                query,
            )[i]).category == Category::Panel,
        forall|i: int|
            0 <= i < action_items(actions, query).len() ==> (#[trigger] action_items(
                actions,
                query,
            )[i]).category == Category::Action,
    decreases workspaces.len() + panels.len() + actions.len(),
{
    if workspaces.len() > 0 {
        lemma_item_categories(workspaces.drop_last(), panels, actions, query);
    } else if panels.len() > 0 {
        lemma_item_categories(workspaces, panels.drop_last(), actions, query);
    } else if actions.len() > 0 {
        lemma_item_categories(workspaces, panels, actions.drop_last(), query);
    }
}

/// A mode shows only what it is for.
pub proof fn law_modes_filter_categories(
    query: Seq<char>,
    workspaces: Seq<WorkspaceEntry>,
    panels: Seq<PanelEntry>,
    actions: Seq<CommandEntry>,
    mode: PaletteMode,
    i: int,
)
    requires
        0 <= i < results_for(mode, query, workspaces, panels, actions).len(),
    ensures
        mode == PaletteMode::ActionsOnly ==> results_for(
            mode,
            query,
            workspaces,
            panels,
            actions,
        )[i].category == Category::Action,
        mode == PaletteMode::PanelsOnly ==> results_for(
            mode,
            query,
            workspaces,
            panels,
            actions,
        )[i].category == Category::Panel,
{
    lemma_item_categories(workspaces, panels, actions, ascii_lowercase(query));
}

/// The keys of the palette that went down in one frame.
#[derive(Clone, Copy, Debug, PartialEq, Eq, Structural)]
pub struct PaletteKeys {
    pub up: bool,
    pub down: bool,
    pub enter: bool,
    pub escape: bool,
}

impl CommandPalette {
    pub fn new(now_ms: u64) -> (palette: Self)
        ensures
            palette.query@.len() == 0,
            palette.selected == 0,
            palette.opened_at_ms == now_ms,
    {
        CommandPalette { query: String::new(), selected: 0, opened_at_ms: now_ms }
    }

    /// The selection among `count` rows: the last where it lies beyond.
    pub open spec fn clamped(self, count: int) -> int {
        if count == 0 {
            0
        } else if self.selected >= count {
            count - 1
        } else {
            self.selected as int
        }
    }

    /// Moves the selection back into a list of `count` rows.
    pub fn clamp_selection(&mut self, count: usize)
        ensures
            final(self).selected == old(self).clamped(count as int),
            final(self).query == old(self).query,
            final(self).opened_at_ms == old(self).opened_at_ms,
    {
        if count == 0 {
            self.selected = 0;
        } else if self.selected >= count {
            self.selected = count - 1;
        }
    }

    /// Whether a click on the backdrop closes the palette.
    pub fn backdrop_cancels(&self, clicked: bool, now_ms: u64) -> (cancels: bool)
        ensures
            cancels == (clicked && now_ms - self.opened_at_ms > 200),
    {
        clicked && now_ms >= self.opened_at_ms && now_ms - self.opened_at_ms > 200
    }

    /// Whether the query line should take the focus.
    pub fn wants_focus(&self, has_focus: bool, now_ms: u64) -> (wants: bool)
        ensures
            wants == (!has_focus && now_ms - self.opened_at_ms < 100),
    {
        !has_focus && (now_ms < self.opened_at_ms || now_ms - self.opened_at_ms < 100)
    }

    /// The query was edited: the selection starts over.
    pub fn edit_query(&mut self, query: String)
        ensures
            final(self).query@ == query@,
            final(self).selected == 0,
            final(self).opened_at_ms == old(self).opened_at_ms,
    {
        self.query = query;
        self.selected = 0;
    }

    /// Where the arrows take the selection in a list of `count` rows.
    pub open spec fn stepped(self, keys: PaletteKeys, count: int) -> int {
        let raised = if keys.up && self.selected > 0 {
            self.selected - 1
        } else {
            self.selected as int
        };
        if keys.down && raised < count - 1 {
            raised + 1
        } else {
            raised
        }
    }

    pub fn handle_keyboard(&mut self, keys: PaletteKeys, items: &Vec<ResultItem>) -> (action:
        Option<PaletteAction>)
        requires
            old(self).selected < items@.len() || items@.len() == 0 && old(self).selected == 0,
        ensures
            action == (if keys.escape {
                Some(PaletteAction::Cancelled)
            } else if keys.enter && items@.len() > 0 {
                Some(
                    PaletteAction::Execute(
                        items@[old(self).stepped(keys, items@.len() as int)].id,
                    ),
                )
            } else {
                None
            }),
            final(self).selected == (if keys.escape {
                old(self).selected as int
            } else {
                old(self).stepped(keys, items@.len() as int)
            }),
            final(self).query == old(self).query,
            final(self).opened_at_ms == old(self).opened_at_ms,
    {
        if keys.escape {
            return Some(PaletteAction::Cancelled);
        }
        if keys.up && self.selected > 0 {
            self.selected = self.selected - 1;
        }
        if keys.down && items.len() > 0 && self.selected < items.len() - 1 {
            self.selected = self.selected + 1;
        }
        if keys.enter && items.len() > 0 {
            return Some(PaletteAction::Execute(items[self.selected].id));
        }
        None
    }

    /// One frame of the open palette over `items`: the selection is moved into
    /// the list, then the keys count, then a clicked row.
    pub fn resolve(
        &mut self,
        keys: PaletteKeys,
        items: &Vec<ResultItem>,
        clicked_row: Option<usize>,
    ) -> (action: PaletteAction)
        requires
            clicked_row matches Some(row) ==> row < items@.len(),
        ensures
            final(self).selected == (if keys.escape {
                old(self).clamped(items@.len() as int)
            } else {
                (CommandPalette {
                    selected: old(self).clamped(items@.len() as int) as usize,
                    ..*old(self)
                }).stepped(keys, items@.len() as int)
            }),
            items@.len() > 0 ==> final(self).selected < items@.len(),
            keys.escape ==> action == PaletteAction::Cancelled,
            !keys.escape && !(keys.enter && items@.len() > 0) ==> action == (match clicked_row {
                Some(row) => PaletteAction::Execute(items@[row as int].id),
                None => PaletteAction::Idle,
            }),
            !keys.escape && keys.enter && items@.len() > 0 ==> action == PaletteAction::Execute(
                items@[final(self).selected as int].id,
            ),
            final(self).query == old(self).query,
            final(self).opened_at_ms == old(self).opened_at_ms,
    {
        self.clamp_selection(items.len());
        if let Some(action) = self.handle_keyboard(keys, items) {
            return action;
        }
        match clicked_row {
            Some(row) => PaletteAction::Execute(items[row].id),
            None => PaletteAction::Idle,
        }
    }
}

/// What stands above the query line.
pub fn palette_title(mode: PaletteMode) -> (title: &'static str)
    ensures
        title@ == (match mode {
            PaletteMode::All => "Command Palette"@,
            PaletteMode::ActionsOnly => "Actions"@,
            PaletteMode::PanelsOnly => "Panels"@,
        }),
{
    match mode {
        PaletteMode::All => "Command Palette",
        PaletteMode::ActionsOnly => "Actions",
        PaletteMode::PanelsOnly => "Panels",
    }
}

/// The rows that a section heading stands above: those whose category differs
/// from the row before.
pub fn section_starts(items: &Vec<ResultItem>) -> (starts: Vec<bool>)
    ensures
        starts@.len() == items@.len(),
        forall|i: int|
            0 <= i < items@.len() ==> #[trigger] starts@[i] == (i == 0 || items@[i].category
                != items@[i - 1].category),
{
    let mut starts: Vec<bool> = Vec::new();
    let mut i: usize = 0;
    while i < items.len()
        invariant
            i <= items@.len(),
            starts@.len() == i,
            forall|j: int|
                0 <= j < i ==> #[trigger] starts@[j] == (j == 0 || items@[j].category != items@[j
                    - 1].category),
        decreases items@.len() - i,
    {
        starts.push(i == 0 || items[i].category != items[i - 1].category);
        i = i + 1;
    }
    starts
}

/// `places` are, in order, exactly those of `count` entries that were `found`.
pub open spec fn picked(places: Seq<int>, count: int, found: spec_fn(int) -> bool) -> bool {
    &&& forall|k: int, m: int| 0 <= k < m < places.len() ==> places[k] < places[m]
    &&& forall|k: int| 0 <= k < places.len() ==> 0 <= #[trigger] places[k] < count
    &&& forall|at: int| 0 <= at < count ==> (found(at) <==> #[trigger] places.contains(at))
}

/// A text fuzzily matches a query: with both made small, the query's characters
/// stand in it from left to right.
pub open spec fn finds(text: Seq<char>, query: Seq<char>) -> bool {
    exists|places: Seq<int>|
        #[trigger] embeds(ascii_lowercase(text), ascii_lowercase(query), places)
}

proof fn lemma_picked_step(
    before: Seq<int>,
    after: Seq<int>,
    count: int,
    found: spec_fn(int) -> bool,
)
    requires
        count > 0,
        picked(before, count - 1, found),
        after == (if found(count - 1) {
            before.push(count - 1)
        } else {
            before
        }),
    ensures
        picked(after, count, found),
{
    assert forall|at: int| 0 <= at < count implies (found(at) <==> #[trigger] after.contains(
        at,
    )) by {
        if at < count - 1 {
            assert(found(at) <==> before.contains(at));
            if before.contains(at) {
                let k = choose|k: int| 0 <= k < before.len() && before[k] == at;
                assert(after[k] == at);
            }
            if after.contains(at) {
                let k = choose|k: int| 0 <= k < after.len() && after[k] == at;
                assert(before[k] == at);
            }
        } else {
            if found(at) {
                assert(after[before.len() as int] == at);
            } else if after.contains(at) {
                let k = choose|k: int| 0 <= k < after.len() && after[k] == at;
                assert(before[k] == at);
            }
        }
    }
}

proof fn lemma_finds(text: Seq<char>, query: Seq<char>)
    ensures
        finds(text, query) <==> subsequence(ascii_lowercase(text), ascii_lowercase(query)),
        query.len() == 0 ==> finds(text, query),
{
    law_fuzzy_match_is_a_subsequence(ascii_lowercase(text), ascii_lowercase(query));
}

/// The panels among the rows are, in their order, exactly those whose title,
/// working directory or workspace's name the query finds. Each row shows the
/// title, focuses the panel, and shows the end of its directory and its
/// workspace.
pub proof fn law_panels_are_found_by_title_directory_and_workspace(
    query: Seq<char>,
    workspaces: Seq<WorkspaceEntry>,
    panels: Seq<PanelEntry>,
    actions: Seq<CommandEntry>,
) -> (places: Seq<int>)
    ensures
        picked(
            places,
            panels.len() as int,
            |at: int|
                finds(panels[at].title@, query) || (panels[at].cwd matches Some(cwd) && finds(
                    cwd@,
                    query,
                )) || finds(panels[at].workspace_name@, query),
        ),
        ({
            let rows = results_for(PaletteMode::PanelsOnly, query, workspaces, panels, actions);
            &&& rows.len() == places.len()
            &&& forall|i: int|
                0 <= i < rows.len() ==> {
                    let panel = panels[places[i]];
                    let row = #[trigger] rows[i];
                    &&& row.id == CommandId::FocusPanel(panel.id)
                    &&& row.label == panel.title@
                    &&& row.category == Category::Panel
                    &&& row.shortcut is None && row.accent is None
                    &&& panel.cwd is None ==> row.detail == panel.workspace_name@
                    &&& panel.cwd matches Some(cwd) ==> row.detail == short_path(cwd@) + "  "@
                        + panel.workspace_name@
                }
        }),
{
    let q = ascii_lowercase(query);
    let places = lemma_panel_rows(query, panels);
    let rows = results_for(PaletteMode::PanelsOnly, query, workspaces, panels, actions);
    assert(rows =~= panel_items(panels, q));
    places
}

proof fn lemma_panel_rows(query: Seq<char>, panels: Seq<PanelEntry>) -> (places: Seq<int>)
    ensures
        picked(
            places,
            panels.len() as int,
            |at: int|
                finds(panels[at].title@, query) || (panels[at].cwd matches Some(cwd) && finds(
                    cwd@,
                    query,
                )) || finds(panels[at].workspace_name@, query),
        ),
        panel_items(panels, ascii_lowercase(query)).len() == places.len(),
        forall|i: int|
            0 <= i < places.len() ==> #[trigger] panel_items(panels, ascii_lowercase(query))[i]
                == panel_item(panels[places[i]]),
    decreases panels.len(),
{
    let found = |at: int|
        finds(panels[at].title@, query) || (panels[at].cwd matches Some(cwd) && finds(cwd@, query))
            || finds(panels[at].workspace_name@, query);
    let q = ascii_lowercase(query);
    if panels.len() == 0 {
        Seq::empty()
    } else {
        let head = panels.drop_last();
        let last = panels.last();
        let before = lemma_panel_rows(query, head);
        let inner = |at: int|
            finds(head[at].title@, query) || (head[at].cwd matches Some(cwd) && finds(cwd@, query))
                || finds(head[at].workspace_name@, query);
        assert forall|at: int| 0 <= at < head.len() implies (found(at)
            <==> #[trigger] before.contains(at)) by {
            assert(head[at] == panels[at]);
            assert(inner(at) <==> before.contains(at));
        }
        assert(picked(before, panels.len() - 1, found));
        lemma_finds(last.title@, query);
        lemma_finds(last.workspace_name@, query);
        let terms = panel_terms(last);
        if let Some(cwd) = last.cwd {
            lemma_finds(cwd@, query);
            assert(terms[0] == cwd@ && terms[1] == last.workspace_name@);
        } else {
            assert(terms[0] == last.workspace_name@);
        }
        assert(q.len() == query.len());
        assert(query_matches(q, last.title@, terms) <==> found(panels.len() - 1));
        let after = if found(panels.len() - 1) {
            before.push(panels.len() - 1)
        } else {
            before
        };
        lemma_picked_step(before, after, panels.len() as int, found);
        assert forall|i: int| 0 <= i < after.len() implies #[trigger] panel_items(panels, q)[i]
            == panel_item(panels[after[i]]) by {
            if i < before.len() {
                assert(panel_items(head, q)[i] == panel_item(head[before[i]]));
                assert(head[before[i]] == panels[before[i]]);
            }
        }
        after
    }
}

/// The workspaces among the rows of a search of everything come first and are,
/// in their order, exactly those whose name the query finds. Each row shows the
/// name and colour, the number of panels and whether it is active, and switches
/// to the workspace.
pub proof fn law_workspaces_are_found_by_name(
    query: Seq<char>,
    workspaces: Seq<WorkspaceEntry>,
    panels: Seq<PanelEntry>,
    actions: Seq<CommandEntry>,
) -> (places: Seq<int>)
    ensures
        picked(
            places,
            workspaces.len() as int,
            |at: int| finds(workspaces[at].name@, query),
        ),
        ({
            let rows = results_for(PaletteMode::All, query, workspaces, panels, actions);
            &&& rows.len() >= places.len()
            &&& forall|i: int|
                0 <= i < places.len() ==> {
                    let workspace = workspaces[places[i]];
                    let row = #[trigger] rows[i];
                    &&& row.id == CommandId::SwitchWorkspace(workspace.id)
                    &&& row.label == workspace.name@
                    &&& row.category == Category::Workspace
                    &&& row.accent == Some(workspace.color) && row.shortcut is None
                    &&& workspace.is_active ==> row.detail == decimal(workspace.panel_count as nat)
                        + " panels  active"@
                    &&& !workspace.is_active ==> row.detail == decimal(workspace.panel_count as nat)
                        + " panels"@
                }
            &&& rows.skip(places.len() as int) == results_for(
                PaletteMode::PanelsOnly,
                query,
                workspaces,
                panels,
                actions,
            ) + results_for(PaletteMode::ActionsOnly, query, workspaces, panels, actions)
        }),
{
    let q = ascii_lowercase(query);
    let places = lemma_workspace_rows(query, workspaces);
    let rows = results_for(PaletteMode::All, query, workspaces, panels, actions);
    assert forall|i: int| 0 <= i < places.len() implies #[trigger] rows[i] == workspace_item(
        workspaces[places[i]],
    ) by {
        assert(rows[i] == workspace_items(workspaces, q)[i]);
    }
    assert(rows.skip(places.len() as int) =~= results_for(
        PaletteMode::PanelsOnly,
        query,
        workspaces,
        panels,
        actions,
    ) + results_for(PaletteMode::ActionsOnly, query, workspaces, panels, actions));
    places
}

proof fn lemma_workspace_rows(query: Seq<char>, workspaces: Seq<WorkspaceEntry>) -> (places: Seq<
    int,
>)
    ensures
        picked(
            places,
            workspaces.len() as int,
            |at: int| finds(workspaces[at].name@, query),
        ),
        workspace_items(workspaces, ascii_lowercase(query)).len() == places.len(),
        forall|i: int|
            0 <= i < places.len() ==> #[trigger] workspace_items(
                workspaces,
                ascii_lowercase(query),
            )[i] == workspace_item(workspaces[places[i]]),
    decreases workspaces.len(),
{
    let found = |at: int| finds(workspaces[at].name@, query);
    let q = ascii_lowercase(query);
    if workspaces.len() == 0 {
        Seq::empty()
    } else {
        let head = workspaces.drop_last();
        let last = workspaces.last();
        let before = lemma_workspace_rows(query, head);
        let inner = |at: int| finds(head[at].name@, query);
        assert forall|at: int| 0 <= at < head.len() implies (found(at)
            <==> #[trigger] before.contains(at)) by {
            assert(head[at] == workspaces[at]);
            assert(inner(at) <==> before.contains(at));
        }
        assert(picked(before, workspaces.len() - 1, found));
        lemma_finds(last.name@, query);
        assert(q.len() == query.len());
        assert(query_matches(q, last.name@, Seq::empty()) <==> found(workspaces.len() - 1));
        let after = if found(workspaces.len() - 1) {
            before.push(workspaces.len() - 1)
        } else {
            before
        };
        lemma_picked_step(before, after, workspaces.len() as int, found);
        assert forall|i: int| 0 <= i < after.len() implies #[trigger] workspace_items(
            workspaces,
            q,
        )[i] == workspace_item(workspaces[after[i]]) by {
            if i < before.len() {
                assert(workspace_items(head, q)[i] == workspace_item(head[before[i]]));
                assert(head[before[i]] == workspaces[before[i]]);
            }
        }
        after
    }
}

/// The actions among the rows are, in their order, exactly those whose label or
/// one of whose keywords the query finds. Each row shows the label and the
/// shortcut, and runs the action.
pub proof fn law_actions_are_found_by_label_and_keyword(
    query: Seq<char>,
    workspaces: Seq<WorkspaceEntry>,
    panels: Seq<PanelEntry>,
    actions: Seq<CommandEntry>,
) -> (places: Seq<int>)
    ensures
        picked(
            places,
            actions.len() as int,
            |at: int|
                finds(actions[at].label@, query) || exists|k: int|
                    0 <= k < actions[at].keywords@.len() && finds(
                        (#[trigger] actions[at].keywords@[k])@,
                        query,
                    ),
        ),
        ({
            let rows = results_for(PaletteMode::ActionsOnly, query, workspaces, panels, actions);
            &&& rows.len() == places.len()
            &&& forall|i: int|
                0 <= i < rows.len() ==> {
                    let action = actions[places[i]];
                    let row = #[trigger] rows[i];
                    &&& row.id == action.id
                    &&& row.label == action.label@
                    &&& row.category == Category::Action
                    &&& row.detail.len() == 0 && row.accent is None
                    &&& action.shortcut is None ==> row.shortcut is None
                    &&& action.shortcut matches Some(shortcut) ==> row.shortcut == Some(shortcut@)
                }
        }),
{
    let q = ascii_lowercase(query);
    let places = lemma_action_rows(query, actions);
    let rows = results_for(PaletteMode::ActionsOnly, query, workspaces, panels, actions);
    assert(rows =~= action_items(actions, q));
    places
}

proof fn lemma_action_rows(query: Seq<char>, actions: Seq<CommandEntry>) -> (places: Seq<int>)
    ensures
        picked(
            places,
            actions.len() as int,
            |at: int|
                finds(actions[at].label@, query) || exists|k: int|
                    0 <= k < actions[at].keywords@.len() && finds(
                        (#[trigger] actions[at].keywords@[k])@,
                        query,
                    ),
        ),
        action_items(actions, ascii_lowercase(query)).len() == places.len(),
        forall|i: int|
            0 <= i < places.len() ==> #[trigger] action_items(actions, ascii_lowercase(query))[i]
                == action_item(actions[places[i]]),
    decreases actions.len(),
{
    let found = |at: int|
        finds(actions[at].label@, query) || exists|k: int|
            0 <= k < actions[at].keywords@.len() && finds(
                (#[trigger] actions[at].keywords@[k])@,
                query,
            );
    let q = ascii_lowercase(query);
    if actions.len() == 0 {
        Seq::empty()
    } else {
        let head = actions.drop_last();
        let last = actions.last();
        let before = lemma_action_rows(query, head);
        let inner = |at: int|
            finds(head[at].label@, query) || exists|k: int|
                0 <= k < head[at].keywords@.len() && finds(
                    (#[trigger] head[at].keywords@[k])@,
                    query,
                );
        assert forall|at: int| 0 <= at < head.len() implies (found(at)
            <==> #[trigger] before.contains(at)) by {
            assert(head[at] == actions[at]);
            assert(inner(at) <==> before.contains(at));
        }
        assert(picked(before, actions.len() - 1, found));
        lemma_finds(last.label@, query);
        let terms = texts(last.keywords@);
        assert forall|k: int| 0 <= k < terms.len() implies (subsequence(
            ascii_lowercase(#[trigger] terms[k]),
            q,
        ) <==> finds(last.keywords@[k]@, query)) by {
            lemma_finds(last.keywords@[k]@, query);
        }
        assert(q.len() == query.len());
        assert(query_matches(q, last.label@, terms) <==> found(actions.len() - 1)) by {
            assert(actions[actions.len() - 1] == last);
            if query_matches(q, last.label@, terms) && !finds(last.label@, query) {
                let k = choose|k: int|
                    0 <= k < terms.len() && subsequence(ascii_lowercase(#[trigger] terms[k]), q);
                assert(finds(last.keywords@[k]@, query));
            }
            if found(actions.len() - 1) && !finds(last.label@, query) {
                let k = choose|k: int|
                    0 <= k < last.keywords@.len() && finds(
                        (#[trigger] last.keywords@[k])@,
                        query,
                    );
                assert(subsequence(ascii_lowercase(terms[k]), q));
            }
        }
        let after = if found(actions.len() - 1) {
            before.push(actions.len() - 1)
        } else {
            before
        };
        lemma_picked_step(before, after, actions.len() as int, found);
        assert forall|i: int| 0 <= i < after.len() implies #[trigger] action_items(actions, q)[i]
            == action_item(actions[after[i]]) by {
            if i < before.len() {
                assert(action_items(head, q)[i] == action_item(head[before[i]]));
                assert(head[before[i]] == actions[before[i]]);
            }
        }
        after
    }
}

/// A leading `>` searches the actions alone, a leading `@` the panels alone,
/// and neither is part of what is searched for.
pub proof fn law_marks_choose_the_mode(blanks: Seq<char>, search: Seq<char>)
    requires
        forall|i: int|
            0 <= i < blanks.len() ==> crate::text::white_space(#[trigger] blanks[i]),
        search.len() > 0 ==> !crate::text::white_space(search[0]),
    ensures
        mode_of(blanks.push('>') + blanks + search) == PaletteMode::ActionsOnly,
        search_of(blanks.push('>') + blanks + search) == search,
        mode_of(blanks.push('@') + blanks + search) == PaletteMode::PanelsOnly,
        search_of(blanks.push('@') + blanks + search) == search,
        search.len() == 0 || (search[0] != '>' && search[0] != '@') ==> mode_of(blanks + search)
            == PaletteMode::All && search_of(blanks + search) == search,
{
    lemma_blanks(blanks, search);
    lemma_marked(blanks, '>', search);
    lemma_marked(blanks, '@', search);
}

proof fn lemma_blanks(blanks: Seq<char>, rest: Seq<char>)
    requires
        forall|i: int|
            0 <= i < blanks.len() ==> crate::text::white_space(#[trigger] blanks[i]),
        rest.len() > 0 ==> !crate::text::white_space(rest[0]),
    ensures
        trim_start(blanks + rest) == rest,
{
    let s = blanks + rest;
    assert forall|i: int| 0 <= i < blanks.len() implies crate::text::white_space(
        #[trigger] s[i],
    ) by {
        assert(s[i] == blanks[i]);
    }
    if rest.len() > 0 {
        assert(s[blanks.len() as int] == rest[0]);
    }
    crate::text::lemma_trim_start(s, blanks.len() as int);
    assert(s.skip(blanks.len() as int) =~= rest);
}

proof fn lemma_marked(blanks: Seq<char>, mark: char, search: Seq<char>)
    requires
        mark == '>' || mark == '@',
        forall|i: int|
            0 <= i < blanks.len() ==> crate::text::white_space(#[trigger] blanks[i]),
        search.len() > 0 ==> !crate::text::white_space(search[0]),
    ensures
        trim_start(blanks.push(mark) + blanks + search) == seq![mark] + (blanks + search),
        (seq![mark] + (blanks + search))[0] == mark,
        trim_start((seq![mark] + (blanks + search)).skip(1)) == search,
{
    let rest = seq![mark] + (blanks + search);
    assert(blanks.push(mark) + blanks + search =~= blanks + rest);
    lemma_blanks(blanks, rest);
    lemma_blanks(blanks, search);
    assert(rest.skip(1) =~= blanks + search);
}

/// A path is shown by its last two components, or by the last where the one
/// before it is nameless; a name alone is shown whole.
pub proof fn law_paths_are_shown_by_their_end(
    head: Seq<char>,
    parent: Seq<char>,
    name: Seq<char>,
)
    requires
        !name.contains('/'),
        !parent.contains('/'),
    ensures
        short_path(name) == name,
        short_path(head.push('/') + parent + seq!['/'] + name) == parent + seq!['/'] + name,
        short_path(parent + seq!['/'] + name) == name,
{
    assert forall|i: int| 0 <= i < name.len() implies name[i] != '/' by {
        if name[i] == '/' {
            assert(name.contains('/'));
        }
    }
    assert forall|i: int| 0 <= i < parent.len() implies parent[i] != '/' by {
        if parent[i] == '/' {
            assert(parent.contains('/'));
        }
    }
    crate::text::lemma_last_index(name, '/', -1);
    let long = head.push('/') + parent + seq!['/'] + name;
    let cut = head.len() + 1 + parent.len();
    crate::text::lemma_last_index(long, '/', cut as int);
    let front = long.take(cut as int);
    assert(front =~= head.push('/') + parent);
    crate::text::lemma_last_index(front, '/', head.len() as int);
    assert(long.skip((head.len() + 1) as int) =~= parent + seq!['/'] + name);
    let short = parent + seq!['/'] + name;
    crate::text::lemma_last_index(short, '/', parent.len() as int);
    assert(short.take(parent.len() as int) =~= parent);
    crate::text::lemma_last_index(parent, '/', -1);
    assert(short.skip((parent.len() + 1) as int) =~= name);
}

/// The arrows move the selection by one row and never off the list; a selection
/// beyond the list goes back to its last row.
pub proof fn law_arrows_move_within_the_list(
    palette: CommandPalette,
    keys: PaletteKeys,
    count: int,
)
    requires
        count > 0,
    ensures
        0 <= palette.clamped(count) < count,
        palette.selected < count ==> palette.clamped(count) == palette.selected,
        palette.selected >= count ==> palette.clamped(count) == count - 1,
        palette.clamped(0) == 0,
        palette.selected < count ==> ({
            let after = palette.stepped(keys, count);
            &&& 0 <= after < count
            &&& !keys.up && !keys.down ==> after == palette.selected
            &&& keys.up && !keys.down && palette.selected > 0 ==> after == palette.selected - 1
            &&& keys.up && !keys.down && palette.selected == 0 ==> after == 0
            &&& keys.down && !keys.up && palette.selected + 1 < count ==> after == palette.selected
                + 1
            &&& keys.down && !keys.up && palette.selected + 1 == count ==> after
                == palette.selected
        }),
{
}

/// What is said of a row is said of what it holds.
pub proof fn law_result_item_is_seen_as_it_is(value: ResultItem)
    ensures
        value@.id == value.id,
        value@.label == value.label@,
        value@.detail == value.detail@,
        value@.shortcut == opt_text(value.shortcut),
        value@.category == value.category,
        value@.accent == value.accent,
{
}

/// Rows are seen one by one, in their order.
pub proof fn law_rows_are_seen_in_order(list: Seq<ResultItem>, k: int)
    requires
        0 <= k < list.len(),
    ensures
        item_views(list).len() == list.len(),
        item_views(list)[k] == list[k]@,
{
}

} // verus!
