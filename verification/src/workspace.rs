//! The frames of workspaces on the board: their places, their labels, their
//! toolbars, and what a frame of clicks and drags does to the board. Lengths are
//! in thousandths of a point.
use vstd::prelude::*;

use crate::geometry::{held, hold, Pos, ScreenRect};
use crate::text::{same_text, trim, trimmed};
use crate::util::OverlayExclusion;

verus! {

pub const LAYOUT_BUTTON_HEIGHT: i64 = 24_000;

pub const LAYOUT_BUTTON_SPACING: i64 = 4_000;

pub const LAYOUT_DEFAULT_BUTTON_WIDTH: i64 = 60_000;

pub const DETACH_BUTTON_WIDTH: i64 = 54_000;

pub const LAYOUT_TOOLBAR_MARGIN_X: i64 = 6_000;

pub const LAYOUT_TOOLBAR_MARGIN_Y: i64 = 5_000;

pub const LAYOUT_TOOLBAR_OFFSET_X: i64 = 10_000;

pub const LABEL_INSET_X: i64 = 14_000;

pub const LABEL_INSET_Y: i64 = 12_000;

#[derive(Clone, Copy, Debug, PartialEq, Eq, Structural)]
pub enum WorkspaceLayout {
    Rows,
    Columns,
    Grid,
    Stack,
    Cascade,
}

pub fn workspace_layout_label(layout: WorkspaceLayout) -> (label: &'static str)
    ensures
        label@ == match layout {
            WorkspaceLayout::Rows => "Rows"@,
            WorkspaceLayout::Columns => "Cols"@,
            WorkspaceLayout::Grid => "Grid"@,
            WorkspaceLayout::Stack => "Stack"@,
            WorkspaceLayout::Cascade => "Cascade"@,
        },
{
    match layout {
        WorkspaceLayout::Rows => "Rows",
        WorkspaceLayout::Columns => "Cols",
        WorkspaceLayout::Grid => "Grid",
        WorkspaceLayout::Stack => "Stack",
        WorkspaceLayout::Cascade => "Cascade",
    }
}

pub open spec fn button_width(layout: WorkspaceLayout) -> i64 {
    match layout {
        WorkspaceLayout::Rows | WorkspaceLayout::Columns | WorkspaceLayout::Grid => 44_000,
        WorkspaceLayout::Stack => 52_000,
        WorkspaceLayout::Cascade => 68_000,
    }
}

pub fn workspace_layout_button_width(layout: WorkspaceLayout) -> (width: i64)
    ensures
        width == button_width(layout),
{
    match layout {
        WorkspaceLayout::Rows | WorkspaceLayout::Columns | WorkspaceLayout::Grid => 44_000,
        WorkspaceLayout::Stack => 52_000,
        WorkspaceLayout::Cascade => 68_000,
    }
}

/// The widths of the buttons of a row of presets.
pub open spec fn row_width(presets: Seq<WorkspaceLayout>) -> int
    decreases presets.len(),
{
    if presets.len() == 0 {
        0
    } else {
        row_width(presets.drop_last()) + button_width(presets.last())
    }
}

pub fn workspace_layout_preset_row_width(presets: &Vec<WorkspaceLayout>) -> (width: i128)
    ensures
        width == row_width(presets@),
        0 <= width <= 68_000 * presets@.len(),
{
    let mut width: i128 = 0;
    let mut i: usize = 0;
    assert(presets@.take(0) =~= Seq::<WorkspaceLayout>::empty());
    while i < presets.len()
        invariant
            i <= presets@.len(),
            width == row_width(presets@.take(i as int)),
            0 <= width <= 68_000 * i,
        decreases presets@.len() - i,
    {
        assert(presets@.take(i + 1).drop_last() =~= presets@.take(i as int));
        width = width + workspace_layout_button_width(presets[i]) as i128;
        i = i + 1;
    }
    assert(presets@.take(i as int) =~= presets@);
    width
}

/// A button for each preset after the default one, and one that detaches where
/// that can be: so many buttons less one are the gaps.
pub open spec fn toolbar_width(presets: Seq<WorkspaceLayout>, detachable: bool) -> int {
    LAYOUT_DEFAULT_BUTTON_WIDTH + row_width(presets) + presets.len() * LAYOUT_BUTTON_SPACING + (
    if detachable {
        LAYOUT_BUTTON_SPACING + DETACH_BUTTON_WIDTH
    } else {
        0
    }) + 2 * LAYOUT_TOOLBAR_MARGIN_X
}

pub open spec fn toolbar_rect(
    label: ScreenRect,
    presets: Seq<WorkspaceLayout>,
    detachable: bool,
) -> ScreenRect {
    ScreenRect {
        min_x: held(label.max_x + LAYOUT_TOOLBAR_OFFSET_X),
        min_y: label.min_y,
        max_x: held(label.max_x + LAYOUT_TOOLBAR_OFFSET_X + toolbar_width(presets, detachable)),
        max_y: held(label.min_y + LAYOUT_BUTTON_HEIGHT + 2 * LAYOUT_TOOLBAR_MARGIN_Y),
    }
}

/// The toolbar stands behind the label.
pub fn workspace_layout_toolbar_rect(
    label: ScreenRect,
    presets: &Vec<WorkspaceLayout>,
    detachable: bool,
) -> (rect: ScreenRect)
    ensures
        rect == toolbar_rect(label, presets@, detachable),
{
    let gaps: i128 = presets.len() as i128 * LAYOUT_BUTTON_SPACING as i128;
    let fixed: i128 = LAYOUT_DEFAULT_BUTTON_WIDTH as i128 + 2 * LAYOUT_TOOLBAR_MARGIN_X as i128;
    let mut width: i128 = fixed + workspace_layout_preset_row_width(presets) + gaps;
    if detachable {
        width = width + LAYOUT_BUTTON_SPACING as i128 + DETACH_BUTTON_WIDTH as i128;
    }
    let left: i64 = label.max_x as i64 + LAYOUT_TOOLBAR_OFFSET_X;
    let bottom: i64 = label.min_y as i64 + LAYOUT_BUTTON_HEIGHT + 2 * LAYOUT_TOOLBAR_MARGIN_Y;
    ScreenRect {
        min_x: hold(left as i128),
        min_y: label.min_y,
        max_x: hold(left as i128 + width),
        max_y: hold(bottom as i128),
    }
}

/// A workspace's frame, which never starts above the canvas.
pub open spec fn frame_rect(
    bounds: Option<(Pos, Pos)>,
    position: Pos,
    canvas_top: i32,
    empty_width: u32,
    empty_height: u32,
) -> ScreenRect {
    match bounds {
        Some((low, high)) => {
            let top = if low.y > canvas_top {
                low.y
            } else {
                canvas_top
            };
            ScreenRect {
                min_x: low.x,
                min_y: top,
                max_x: high.x,
                max_y: if high.y > top {
                    high.y
                } else {
                    top
                },
            }
        },
        None => {
            let top = if position.y > canvas_top {
                position.y
            } else {
                canvas_top
            };
            ScreenRect {
                min_x: position.x,
                min_y: top,
                max_x: held(position.x + empty_width),
                max_y: held(top + empty_height),
            }
        },
    }
}

/// The frame of a workspace by the corners of what it holds, on the screen; one
/// that holds nothing is at its own position. Says whether it holds nothing.
pub fn workspace_frame(
    bounds: Option<(Pos, Pos)>,
    position: Pos,
    canvas_top: i32,
    empty_width: u32,
    empty_height: u32,
) -> (frame: (ScreenRect, bool))
    ensures
        frame.0 == frame_rect(bounds, position, canvas_top, empty_width, empty_height),
        frame.1 == (bounds is None),
        frame.0.min_y >= canvas_top,
        frame.0.max_y >= frame.0.min_y,
{
    match bounds {
        Some((low, high)) => {
            let top: i32 = if low.y > canvas_top {
                low.y
            } else {
                canvas_top
            };
            let bottom: i32 = if high.y > top {
                high.y
            } else {
                top
            };
            (ScreenRect { min_x: low.x, min_y: top, max_x: high.x, max_y: bottom }, false)
        },
        None => {
            let top: i32 = if position.y > canvas_top {
                position.y
            } else {
                canvas_top
            };
            let right: i64 = position.x as i64 + empty_width as i64;
            let bottom: i64 = top as i64 + empty_height as i64;
            (
                ScreenRect {
                    min_x: position.x,
                    min_y: top,
                    max_x: hold(right as i128),
                    max_y: hold(bottom as i128),
                },
                true,
            )
        },
    }
}

pub open spec fn label_in(frame: ScreenRect, width: int, height: int) -> ScreenRect {
    ScreenRect {
        min_x: held(frame.min_x + LABEL_INSET_X),
        min_y: held(frame.min_y + LABEL_INSET_Y),
        max_x: held(frame.min_x + LABEL_INSET_X + width),
        max_y: held(frame.min_y + LABEL_INSET_Y + height),
    }
}

/// The label in the frame's corner.
pub fn workspace_label_rect(frame: ScreenRect, width: u64, height: u32) -> (label: ScreenRect)
    ensures
        label == label_in(frame, width as int, height as int),
{
    let left: i128 = frame.min_x as i128 + LABEL_INSET_X as i128;
    let top: i128 = frame.min_y as i128 + LABEL_INSET_Y as i128;
    ScreenRect {
        min_x: hold(left),
        min_y: hold(top),
        max_x: hold(left + width as i128),
        max_y: hold(top + height as i128),
    }
}

#[derive(Clone, Copy, Debug, PartialEq, Eq, Structural)]
pub enum WorkspaceAction {
    ClearLayout,
    ArrangeLayout(WorkspaceLayout),
    Detach,
    CloseAllPanels,
}

/// The clicks on a toolbar.
#[derive(Clone, Copy, Debug, PartialEq, Eq, Structural)]
pub struct ToolbarClicks {
    pub default: bool,
    pub preset: Option<usize>,
    pub detach: bool,
}

pub open spec fn toolbar_action(presets: Seq<WorkspaceLayout>, clicks: ToolbarClicks) -> Option<
    WorkspaceAction,
> {
    if clicks.detach {
        Some(WorkspaceAction::Detach)
    } else {
        match clicks.preset {
            Some(i) => if i < presets.len() {
                Some(WorkspaceAction::ArrangeLayout(presets[i as int]))
            } else if clicks.default {
                Some(WorkspaceAction::ClearLayout)
            } else {
                None
            },
            None => if clicks.default {
                Some(WorkspaceAction::ClearLayout)
            } else {
                None
            },
        }
    }
}

/// What the buttons of the toolbar ask for; the one further right counts.
pub fn toolbar_choice(presets: &Vec<WorkspaceLayout>, clicks: ToolbarClicks) -> (action: Option<
    WorkspaceAction,
>)
    ensures
        action == toolbar_action(presets@, clicks),
{
    let mut action: Option<WorkspaceAction> = None;
    if clicks.default {
        action = Some(WorkspaceAction::ClearLayout);
    }
    if let Some(i) = clicks.preset {
        if i < presets.len() {
            action = Some(WorkspaceAction::ArrangeLayout(presets[i]));
        }
    }
    if clicks.detach {
        action = Some(WorkspaceAction::Detach);
    }
    action
}

/// Whether a toolbar's button shows as chosen: the default one without a layout,
/// a preset with its own.
pub fn layout_selected(current: Option<WorkspaceLayout>, button: Option<WorkspaceLayout>) -> (yes:
    bool)
    ensures
        yes == (current == button),
{
    match (current, button) {
        (Some(a), Some(b)) => a == b,
        (None, None) => true,
        _ => false,
    }
}

/// A menu's choice; panels are closed only where there are some.
pub fn menu_choice(
    presets: &Vec<WorkspaceLayout>,
    default: bool,
    preset: Option<usize>,
    close_all: bool,
    panel_count: usize,
) -> (action: Option<WorkspaceAction>)
    ensures
        action == if close_all && panel_count > 0 {
            Some(WorkspaceAction::CloseAllPanels)
        } else {
            toolbar_action(presets@, ToolbarClicks { default, preset, detach: false })
        },
{
    if close_all && panel_count > 0 {
        Some(WorkspaceAction::CloseAllPanels)
    } else {
        toolbar_choice(presets, ToolbarClicks { default, preset, detach: false })
    }
}

#[derive(Clone, Copy, Debug, PartialEq, Eq, Structural)]
pub enum RenameEditAction {
    Idle,
    Commit,
    Cancel,
}

/// What the pointer does to a label this frame.
#[derive(Clone, Copy, Debug, PartialEq, Eq, Structural)]
pub struct LabelResponse {
    pub hovered: bool,
    pub clicked: bool,
    pub double_clicked: bool,
    pub drag_started: bool,
    pub dragged: bool,
    pub drag_stopped: bool,
    pub drag_delta: Pos,
}

#[derive(Clone, Copy, Debug, PartialEq, Eq, Structural)]
pub struct WorkspaceInteraction {
    pub activate_workspace: bool,
    pub drag_delta: Pos,
    pub drag_stopped: bool,
    pub start_rename: bool,
    pub rename_action: RenameEditAction,
    pub action: Option<WorkspaceAction>,
}

/// What a workspace looks like this frame.
#[derive(Clone, Copy, Debug, PartialEq, Eq, Structural)]
pub struct WorkspaceVisual {
    pub label_hidden: bool,
    pub panel_count: usize,
    pub toolbar_rect: ScreenRect,
}

/// The answers that a workspace's widgets give.
#[derive(Clone, Copy, Debug, PartialEq, Eq, Structural)]
pub struct VisualInput {
    /// The name is being edited; then the editor says what it was given.
    pub renaming: Option<RenameEditAction>,
    pub response: LabelResponse,
    pub menu: Option<WorkspaceAction>,
    pub toolbar: Option<WorkspaceAction>,
    /// The toolbar is asked for, as `wants_layout_toolbar` says.
    pub show_layout_toolbar: bool,
}

pub open spec fn still() -> WorkspaceInteraction {
    WorkspaceInteraction {
        activate_workspace: false,
        drag_delta: Pos { x: 0, y: 0 },
        drag_stopped: false,
        start_rename: false,
        rename_action: RenameEditAction::Idle,
        action: None,
    }
}

/// What the label alone comes to. One that is hidden does nothing; one whose
/// name is edited only that.
pub open spec fn label_interaction(visual: WorkspaceVisual, input: VisualInput) -> WorkspaceInteraction {
    if visual.label_hidden {
        still()
    } else {
        match input.renaming {
            Some(rename_action) => WorkspaceInteraction { rename_action, ..still() },
            None => WorkspaceInteraction {
                activate_workspace: input.response.clicked || input.response.drag_started,
                drag_delta: input.response.drag_delta,
                drag_stopped: input.response.drag_stopped,
                start_rename: input.response.double_clicked,
                rename_action: RenameEditAction::Idle,
                action: input.menu,
            },
        }
    }
}

/// A toolbar shows for a workspace with panels, beside a label that is not being
/// edited and whose menu said nothing, and clear of the fixed widgets.
pub open spec fn toolbar_shows(
    visual: WorkspaceVisual,
    input: VisualInput,
    overlays: OverlayExclusion,
) -> bool {
    &&& !visual.label_hidden
    &&& input.show_layout_toolbar
    &&& input.renaming is None
    &&& label_interaction(visual, input).action is None
    &&& visual.panel_count > 0
    &&& !overlays.blocks(visual.toolbar_rect)
}

pub fn should_show_workspace_layout_toolbar(panel_count: usize) -> (yes: bool)
    ensures
        yes == (panel_count > 0),
{
    panel_count > 0
}

/// Whether a workspace's toolbar is asked for: it has panels, and it is active,
/// or the pointer is on its label or on the toolbar itself.
pub fn wants_layout_toolbar(
    panel_count: usize,
    is_active: bool,
    label_hovered: bool,
    toolbar: ScreenRect,
    pointer: Option<Pos>,
) -> (wanted: bool)
    ensures
        wanted == (panel_count > 0 && (is_active || label_hovered || (pointer matches Some(p)
            && toolbar.holds(p)))),
{
    let on_toolbar = match pointer {
        Some(p) => toolbar.contains(p),
        None => false,
    };
    should_show_workspace_layout_toolbar(panel_count) && (is_active || label_hovered || on_toolbar)
}

/// What a workspace's widgets come to, and whether its toolbar shows.
pub fn render_workspace_visual(
    visual: WorkspaceVisual,
    input: VisualInput,
    overlays: &OverlayExclusion,
) -> (out: (WorkspaceInteraction, bool))
    ensures
        out.1 == toolbar_shows(visual, input, *overlays),
        out.0 == (WorkspaceInteraction {
            action: if out.1 {
                input.toolbar
            } else {
                label_interaction(visual, input).action
            },
            ..label_interaction(visual, input)
        }),
{
    let mut interaction = WorkspaceInteraction {
        activate_workspace: false,
        drag_delta: Pos { x: 0, y: 0 },
        drag_stopped: false,
        start_rename: false,
        rename_action: RenameEditAction::Idle,
        action: None,
    };
    if visual.label_hidden {
        return (interaction, false);
    }
    match input.renaming {
        Some(rename_action) => {
            interaction.rename_action = rename_action;
        },
        None => {
            interaction.activate_workspace = input.response.clicked || input.response.drag_started;
            interaction.drag_delta = input.response.drag_delta;
            interaction.drag_stopped = input.response.drag_stopped;
            interaction.start_rename = input.response.double_clicked;
            interaction.action = input.menu;
        },
    }
    let shows = input.show_layout_toolbar && input.renaming.is_none()
        && interaction.action.is_none() && should_show_workspace_layout_toolbar(visual.panel_count)
        && !overlays.intersects(visual.toolbar_rect);
    if shows {
        interaction.action = input.toolbar;
    }
    (interaction, shows)
}

/// The pointer over a label.
#[derive(Clone, Copy, Debug, PartialEq, Eq, Structural)]
pub enum LabelCursor {
    Unchanged,
    Grab,
    Grabbing,
}

pub fn label_cursor(hovered: bool, dragged: bool) -> (cursor: LabelCursor)
    ensures
        cursor == if dragged {
            LabelCursor::Grabbing
        } else if hovered {
            LabelCursor::Grab
        } else {
            LabelCursor::Unchanged
        },
{
    if dragged {
        LabelCursor::Grabbing
    } else if hovered {
        LabelCursor::Grab
    } else {
        LabelCursor::Unchanged
    }
}

/// How strong a frame's border and filling are painted.
pub fn frame_alphas(is_active: bool) -> (alphas: (u8, u8))
    ensures
        alphas == if is_active {
            (110u8, 24u8)
        } else {
            (55u8, 14u8)
        },
{
    if is_active {
        (110, 24)
    } else {
        (55, 14)
    }
}

/// How far a label's colour goes towards the workspace's, in hundredths, and how
/// strong its border is.
pub fn label_tint(is_active: bool, hovered: bool, dragging: bool) -> (tint: (u8, u8))
    ensures
        tint.0 == if dragging {
            22u8
        } else if hovered {
            18u8
        } else if is_active {
            14u8
        } else {
            8u8
        },
        tint.1 == if is_active || hovered {
            160u8
        } else {
            90u8
        },
{
    let share: u8 = if dragging {
        22
    } else if hovered {
        18
    } else if is_active {
        14
    } else {
        8
    };
    let border: u8 = if is_active || hovered {
        160
    } else {
        90
    };
    (share, border)
}

/// One workspace's part in a frame.
pub struct WorkspaceItem {
    pub id: u64,
    pub name: String,
    pub interaction: WorkspaceInteraction,
}

pub struct ItemView {
    pub id: u64,
    pub name: Seq<char>,
    pub interaction: WorkspaceInteraction,
}

impl View for WorkspaceItem {
    type V = ItemView;

    open spec fn view(&self) -> ItemView {
        ItemView { id: self.id, name: self.name@, interaction: self.interaction }
    }
}

pub open spec fn item_views(items: Seq<WorkspaceItem>) -> Seq<ItemView> {
    items.map_values(|i: WorkspaceItem| i@)
}

/// What the last of the items that have one has.
pub open spec fn last_some<T>(items: Seq<ItemView>, of: spec_fn(ItemView) -> Option<T>) -> Option<T>
    decreases items.len(),
{
    if items.len() == 0 {
        None
    } else {
        match of(items.last()) {
            Some(found) => Some(found),
            None => last_some(items.drop_last(), of),
        }
    }
}

pub open spec fn focus_of(item: ItemView) -> Option<u64> {
    if item.interaction.activate_workspace || item.interaction.action == Some(
        WorkspaceAction::ClearLayout,
    ) || item.interaction.action matches Some(WorkspaceAction::ArrangeLayout(_)) {
        Some(item.id)
    } else {
        None
    }
}

pub open spec fn rename_of(item: ItemView) -> Option<(u64, Seq<char>)> {
    if item.interaction.start_rename {
        Some((item.id, item.name))
    } else {
        None
    }
}

pub open spec fn edit_of(item: ItemView) -> Option<RenameEditAction> {
    if item.interaction.rename_action != RenameEditAction::Idle {
        Some(item.interaction.rename_action)
    } else {
        None
    }
}

pub open spec fn clear_of(item: ItemView) -> Option<u64> {
    if item.interaction.action == Some(WorkspaceAction::ClearLayout) {
        Some(item.id)
    } else {
        None
    }
}

pub open spec fn arrange_of(item: ItemView) -> Option<(u64, WorkspaceLayout)> {
    match item.interaction.action {
        Some(WorkspaceAction::ArrangeLayout(layout)) => Some((item.id, layout)),
        _ => None,
    }
}

pub open spec fn detach_of(item: ItemView) -> Option<u64> {
    if item.interaction.action == Some(WorkspaceAction::Detach) {
        Some(item.id)
    } else {
        None
    }
}

pub open spec fn close_of(item: ItemView) -> Option<u64> {
    if item.interaction.action == Some(WorkspaceAction::CloseAllPanels) {
        Some(item.id)
    } else {
        None
    }
}

/// The drags of the first items, in their order.
pub open spec fn drags(items: Seq<ItemView>) -> Seq<(u64, Pos)>
    decreases items.len(),
{
    if items.len() == 0 {
        Seq::empty()
    } else {
        let rest = drags(items.drop_last());
        let delta = items.last().interaction.drag_delta;
        if delta.x != 0 || delta.y != 0 {
            rest.push((items.last().id, delta))
        } else {
            rest
        }
    }
}

/// The name that is being edited.
pub struct RenameState {
    pub renaming: Option<u64>,
    pub buffer: String,
}

pub struct RenameView {
    pub renaming: Option<u64>,
    pub buffer: Seq<char>,
}

impl View for RenameState {
    type V = RenameView;

    open spec fn view(&self) -> RenameView {
        RenameView { renaming: self.renaming, buffer: self.buffer@ }
    }
}

impl RenameView {
    pub open spec fn begun(self, start: Option<(u64, Seq<char>)>) -> RenameView {
        match start {
            Some((id, name)) => RenameView { renaming: Some(id), buffer: name },
            None => self,
        }
    }

    /// A name that is not blank is given; either way the editor closes.
    pub open spec fn edited(self, edit: Option<RenameEditAction>) -> (
        RenameView,
        Option<(u64, Seq<char>)>,
    ) {
        let closed = RenameView { renaming: None, buffer: Seq::empty() };
        match edit {
            Some(RenameEditAction::Commit) => match self.renaming {
                Some(id) => (
                    closed,
                    if trim(self.buffer).len() > 0 {
                        Some((id, trim(self.buffer)))
                    } else {
                        None
                    },
                ),
                None => (self, None),
            },
            Some(RenameEditAction::Cancel) => (closed, None),
            _ => (self, None),
        }
    }
}

/// What a frame asks of the board.
pub struct BoardChange {
    /// A panel's name is no longer edited.
    pub clear_panel_rename: bool,
    pub rename: Option<(u64, String)>,
    pub focus: Option<u64>,
    pub clear_layout: Option<u64>,
    pub arrange: Option<(u64, WorkspaceLayout)>,
    pub detach: Option<u64>,
    pub close_all: Option<u64>,
    pub moves: Vec<(u64, Pos)>,
}

pub open spec fn rename_view(rename: Option<(u64, String)>) -> Option<(u64, Seq<char>)> {
    match rename {
        Some((id, name)) => Some((id, name@)),
        None => None,
    }
}

proof fn lemma_step<T>(items: Seq<ItemView>, i: int, of: spec_fn(ItemView) -> Option<T>)
    requires
        0 <= i < items.len(),
    ensures
        last_some(items.take(i + 1), of) == match of(items[i]) {
            Some(found) => Some(found),
            None => last_some(items.take(i), of),
        },
{
    assert(items.take(i + 1).drop_last() =~= items.take(i));
    assert(items.take(i + 1).last() == items[i]);
}

/// What every workspace's clicks and drags of a frame come to. Of what two of
/// them ask for, the later counts; every drag does, but while the board is
/// panned none.
pub fn workspace_changes(items: &Vec<WorkspaceItem>, rename: &mut RenameState, is_panning: bool) -> (
    change: BoardChange)
    ensures
        ({
            let views = item_views(items@);
            let start = last_some(views, |i: ItemView| rename_of(i));
            let (after, given) = old(rename)@.begun(start).edited(
                last_some(views, |i: ItemView| edit_of(i)),
            );
            &&& final(rename)@ == after
            &&& rename_view(change.rename) == given
            &&& change.clear_panel_rename == (start is Some)
            &&& change.focus == last_some(views, |i: ItemView| focus_of(i))
            &&& change.clear_layout == last_some(views, |i: ItemView| clear_of(i))
            &&& change.arrange == last_some(views, |i: ItemView| arrange_of(i))
            &&& change.detach == last_some(views, |i: ItemView| detach_of(i))
            &&& change.close_all == last_some(views, |i: ItemView| close_of(i))
            &&& change.moves@ == if is_panning {
                Seq::empty()
            } else {
                drags(views)
            }
        }),
{
    let ghost views = item_views(items@);
    let mut focus: Option<u64> = None;
    let mut start: Option<usize> = None;
    let mut edit: Option<RenameEditAction> = None;
    let mut clear_layout: Option<u64> = None;
    let mut arrange: Option<(u64, WorkspaceLayout)> = None;
    let mut detach: Option<u64> = None;
    let mut close_all: Option<u64> = None;
    let mut moves: Vec<(u64, Pos)> = Vec::new();
    let mut i: usize = 0;
    assert(views.take(0) =~= Seq::<ItemView>::empty());
    while i < items.len()
        invariant
            i <= items@.len(),
            views == item_views(items@),
            start matches Some(s) ==> s < items@.len(),
            last_some(views.take(i as int), |v: ItemView| rename_of(v)) == match start {
                Some(s) => Some((views[s as int].id, views[s as int].name)),
                None => None,
            },
            edit == last_some(views.take(i as int), |v: ItemView| edit_of(v)),
            focus == last_some(views.take(i as int), |v: ItemView| focus_of(v)),
            clear_layout == last_some(views.take(i as int), |v: ItemView| clear_of(v)),
            arrange == last_some(views.take(i as int), |v: ItemView| arrange_of(v)),
            detach == last_some(views.take(i as int), |v: ItemView| detach_of(v)),
            close_all == last_some(views.take(i as int), |v: ItemView| close_of(v)),
            moves@ == drags(views.take(i as int)),
        decreases items@.len() - i,
    {
        proof {
            assert(views[i as int] == items@[i as int]@);
            lemma_step(views, i as int, |v: ItemView| rename_of(v));
            lemma_step(views, i as int, |v: ItemView| edit_of(v));
            lemma_step(views, i as int, |v: ItemView| focus_of(v));
            lemma_step(views, i as int, |v: ItemView| clear_of(v));
            lemma_step(views, i as int, |v: ItemView| arrange_of(v));
            lemma_step(views, i as int, |v: ItemView| detach_of(v));
            lemma_step(views, i as int, |v: ItemView| close_of(v));
            assert(views.take(i + 1).drop_last() =~= views.take(i as int));
        }
        let id: u64 = items[i].id;
        let interaction = items[i].interaction;
        if interaction.activate_workspace {
            focus = Some(id);
        }
        if interaction.drag_delta.x != 0 || interaction.drag_delta.y != 0 {
            moves.push((id, interaction.drag_delta));
        }
        if interaction.start_rename {
            start = Some(i);
        }
        if interaction.rename_action != RenameEditAction::Idle {
            edit = Some(interaction.rename_action);
        }
        match interaction.action {
            Some(WorkspaceAction::ClearLayout) => {
                focus = Some(id);
                clear_layout = Some(id);
            },
            Some(WorkspaceAction::ArrangeLayout(layout)) => {
                focus = Some(id);
                arrange = Some((id, layout));
            },
            Some(WorkspaceAction::Detach) => {
                detach = Some(id);
            },
            Some(WorkspaceAction::CloseAllPanels) => {
                close_all = Some(id);
            },
            None => {},
        }
        i = i + 1;
    }
    assert(views.take(i as int) =~= views);
    if is_panning {
        moves = Vec::new();
        assert(moves@ =~= Seq::<(u64, Pos)>::empty());
    }
    if let Some(s) = start {
        assert(views[s as int] == items@[s as int]@);
        rename.renaming = Some(items[s].id);
        rename.buffer = items[s].name.clone();
    }
    let mut given: Option<(u64, String)> = None;
    match edit {
        Some(RenameEditAction::Commit) => {
            if let Some(id) = rename.renaming {
                let name = trimmed(rename.buffer.as_str());
                let blank = same_text(name.as_str(), "");
                proof {
                    reveal_strlit("");
                    if name@.len() == 0 {
                        assert(name@ =~= ""@);
                    }
                }
                if !blank {
                    given = Some((id, name));
                }
                rename.renaming = None;
                rename.buffer = String::new();
                assert(rename.buffer@ =~= Seq::<char>::empty());
            }
        },
        Some(RenameEditAction::Cancel) => {
            rename.renaming = None;
            rename.buffer = String::new();
            assert(rename.buffer@ =~= Seq::<char>::empty());
        },
        _ => {},
    }
    BoardChange {
        clear_panel_rename: start.is_some(),
        rename: given,
        focus,
        clear_layout,
        arrange,
        detach,
        close_all,
        moves,
    }
}

/// A frame never gives a workspace a blank name, and an editor that was told
/// anything is closed after it.
pub proof fn law_names_are_not_blank(rename: RenameView, edit: RenameEditAction)
    requires
        rename.renaming is Some,
        edit != RenameEditAction::Idle,
    ensures
        rename.edited(Some(edit)).0.renaming is None,
        rename.edited(Some(edit)).1 matches Some((id, name)) ==> name.len() > 0 && Some(id)
            == rename.renaming && name == trim(rename.buffer),
{
}

/// A button is as wide as its word asks.
pub proof fn law_buttons_are_as_wide_as_their_word(layout: WorkspaceLayout)
    ensures
        layout is Rows || layout is Columns || layout is Grid ==> button_width(layout) == 44_000,
        layout is Stack ==> button_width(layout) == 52_000,
        layout is Cascade ==> button_width(layout) == 68_000,
{
}

/// A row of buttons is as wide as all of them, in whatever order.
pub proof fn law_rows_are_as_wide_as_their_buttons(
    presets: Seq<WorkspaceLayout>,
    layout: WorkspaceLayout,
)
    ensures
        row_width(Seq::empty()) == 0,
        row_width(presets.push(layout)) == row_width(presets) + button_width(layout),
{
    assert(presets.push(layout).drop_last() =~= presets);
}

/// A toolbar holds the default button of 60 points, one button with a gap of 4
/// for each preset, the one that detaches, of 54 with a gap, where that can be,
/// and 6 points at either end. It stands 10 points behind the label, at its top,
/// and is 34 high.
pub proof fn law_toolbars_hold_their_buttons(
    label: ScreenRect,
    presets: Seq<WorkspaceLayout>,
    layout: WorkspaceLayout,
    detachable: bool,
)
    ensures
        toolbar_width(Seq::empty(), false) == 72_000,
        toolbar_width(presets, true) == toolbar_width(presets, false) + 58_000,
        toolbar_width(presets.push(layout), detachable) == toolbar_width(presets, detachable)
            + 4_000 + button_width(layout),
        ({
            let rect = toolbar_rect(label, presets, detachable);
            &&& rect.min_y == label.min_y
            &&& rect.min_x < i32::MAX ==> rect.min_x == label.max_x + 10_000
            &&& rect.max_y < i32::MAX ==> rect.max_y == label.min_y + 34_000
            &&& i32::MIN < rect.max_x < i32::MAX ==> rect.max_x - label.max_x == 10_000
                + toolbar_width(presets, detachable)
        }),
{
    law_rows_are_as_wide_as_their_buttons(presets, layout);
}

/// A frame starts where what it holds does, but not above the canvas; an empty
/// one starts at its position and has its own size.
pub proof fn law_frames_hold_what_they_are_given(
    low: Pos,
    high: Pos,
    position: Pos,
    canvas_top: i32,
    empty_width: u32,
    empty_height: u32,
)
    ensures
        ({
            let full = frame_rect(
                Some((low, high)),
                position,
                canvas_top,
                empty_width,
                empty_height,
            );
            let empty = frame_rect(None, position, canvas_top, empty_width, empty_height);
            &&& full.min_x == low.x && full.max_x == high.x
            &&& low.y >= canvas_top ==> full.min_y == low.y
            &&& low.y < canvas_top ==> full.min_y == canvas_top
            &&& high.y >= full.min_y ==> full.max_y == high.y
            &&& high.y < full.min_y ==> full.max_y == full.min_y
            &&& empty.min_x == position.x
            &&& position.y >= canvas_top ==> empty.min_y == position.y
            &&& position.y < canvas_top ==> empty.min_y == canvas_top
            &&& empty.max_x < i32::MAX ==> empty.max_x == position.x + empty_width
            &&& empty.max_y < i32::MAX ==> empty.max_y == empty.min_y + empty_height
        }),
{
}

/// A label stands 14 points from the left of its frame and 12 from the top, and
/// has the size it asks for.
pub proof fn law_labels_stand_in_the_corner(frame: ScreenRect, width: int, height: int)
    requires
        width >= 0,
        height >= 0,
    ensures
        ({
            let label = label_in(frame, width, height);
            &&& label.min_x < i32::MAX ==> label.min_x == frame.min_x + 14_000
            &&& label.min_y < i32::MAX ==> label.min_y == frame.min_y + 12_000
            &&& label.max_x < i32::MAX ==> label.max_x == frame.min_x + 14_000 + width
            &&& label.max_y < i32::MAX ==> label.max_y == frame.min_y + 12_000 + height
        }),
{
}

/// A click on the default button clears the layout, one on a preset arranges by
/// it, and one on the last button detaches; the one further right counts.
pub proof fn law_buttons_do_what_they_say(presets: Seq<WorkspaceLayout>, clicks: ToolbarClicks)
    ensures
        ({
            let action = toolbar_action(presets, clicks);
            let chosen = clicks.preset is Some && clicks.preset->0 < presets.len();
            &&& clicks.detach ==> action == Some(WorkspaceAction::Detach)
            &&& !clicks.detach && chosen ==> action == Some(
                WorkspaceAction::ArrangeLayout(presets[clicks.preset->0 as int]),
            )
            &&& !clicks.detach && !chosen && clicks.default ==> action == Some(
                WorkspaceAction::ClearLayout,
            )
            &&& !clicks.detach && !chosen && !clicks.default ==> action is None
        }),
{
}

/// A label that is clicked or dragged makes its workspace active; a double click
/// begins to edit its name; while that is edited, and while the label is hidden,
/// neither happens.
pub proof fn law_labels_answer_the_pointer(visual: WorkspaceVisual, input: VisualInput)
    ensures
        ({
            let i = label_interaction(visual, input);
            let plain = !visual.label_hidden && input.renaming is None;
            &&& i.activate_workspace <==> plain && (input.response.clicked
                || input.response.drag_started)
            &&& i.start_rename <==> plain && input.response.double_clicked
            &&& i.drag_stopped <==> plain && input.response.drag_stopped
            &&& plain ==> i.drag_delta == input.response.drag_delta && i.action == input.menu
            &&& !plain ==> i.drag_delta.x == 0 && i.drag_delta.y == 0 && i.action is None
            &&& !visual.label_hidden && input.renaming is Some ==> i.rename_action
                == input.renaming->0
            &&& visual.label_hidden || input.renaming is None ==> i.rename_action is Idle
        }),
{
}

/// A toolbar shows where it is asked for, for a workspace with panels, beside a
/// label that shows and is not edited, whose menu said nothing, and clear of the
/// fixed widgets.
pub proof fn law_toolbars_show_beside_their_label(
    visual: WorkspaceVisual,
    input: VisualInput,
    overlays: OverlayExclusion,
)
    ensures
        toolbar_shows(visual, input, overlays) <==> !visual.label_hidden
            && input.show_layout_toolbar && input.renaming is None && input.menu is None
            && visual.panel_count > 0 && !overlays.blocks(visual.toolbar_rect),
{
}

/// Of what two workspaces ask for in a frame the later counts; one that asks for
/// nothing changes nothing.
pub proof fn law_the_later_workspace_counts(items: Seq<ItemView>, item: ItemView)
    ensures
        ({
            let more = items.push(item);
            let focus = |i: ItemView| focus_of(i);
            let clear = |i: ItemView| clear_of(i);
            let arrange = |i: ItemView| arrange_of(i);
            let detach = |i: ItemView| detach_of(i);
            let close = |i: ItemView| close_of(i);
            let rename = |i: ItemView| rename_of(i);
            let edit = |i: ItemView| edit_of(i);
            let asks = item.interaction.action;
            let arranges = asks is Some && asks->0 is ArrangeLayout;
            let clears = asks == Some(WorkspaceAction::ClearLayout);
            &&& item.interaction.activate_workspace || clears || arranges ==> last_some(more, focus)
                == Some(item.id)
            &&& !(item.interaction.activate_workspace || clears || arranges) ==> last_some(
                more,
                focus,
            ) == last_some(items, focus)
            &&& last_some(more, clear) == (if clears {
                Some(item.id)
            } else {
                last_some(items, clear)
            })
            &&& last_some(more, arrange) == (if arranges {
                Some((item.id, asks->0->ArrangeLayout_0))
            } else {
                last_some(items, arrange)
            })
            &&& last_some(more, detach) == (if asks == Some(WorkspaceAction::Detach) {
                Some(item.id)
            } else {
                last_some(items, detach)
            })
            &&& last_some(more, close) == (if asks == Some(WorkspaceAction::CloseAllPanels) {
                Some(item.id)
            } else {
                last_some(items, close)
            })
            &&& last_some(more, rename) == (if item.interaction.start_rename {
                Some((item.id, item.name))
            } else {
                last_some(items, rename)
            })
            &&& last_some(more, edit) == (if item.interaction.rename_action is Idle {
                last_some(items, edit)
            } else {
                Some(item.interaction.rename_action)
            })
        }),
{
    assert(items.push(item).drop_last() =~= items);
}

/// Every drag counts, in its order; a label that is not moved has none.
pub proof fn law_every_drag_counts(items: Seq<ItemView>, item: ItemView)
    ensures
        ({
            let delta = item.interaction.drag_delta;
            let more = drags(items.push(item));
            &&& delta.x == 0 && delta.y == 0 ==> more == drags(items)
            &&& delta.x != 0 || delta.y != 0 ==> more == drags(items).push((item.id, delta))
        }),
{
    assert(items.push(item).drop_last() =~= items);
}

/// An editor that begins has the workspace's name; a committed name is given
/// without the space around it, unless it is blank, and a cancelled one is not.
pub proof fn law_names_are_given_when_committed(
    rename: RenameView,
    id: u64,
    name: Seq<char>,
)
    ensures
        rename.begun(Some((id, name))).renaming == Some(id),
        rename.begun(Some((id, name))).buffer == name,
        rename.begun(None) == rename,
        rename.renaming is Some && trim(rename.buffer).len() > 0 ==> rename.edited(
            Some(RenameEditAction::Commit),
        ).1 == Some((rename.renaming->0, trim(rename.buffer))),
        trim(rename.buffer).len() == 0 ==> rename.edited(Some(RenameEditAction::Commit)).1 is None,
        rename.edited(Some(RenameEditAction::Cancel)).1 is None,
        rename.edited(Some(RenameEditAction::Cancel)).0.renaming is None,
        rename.edited(Some(RenameEditAction::Cancel)).0.buffer.len() == 0,
        rename.edited(None) == (rename, None::<(u64, Seq<char>)>),
{
}

/// What is said of an item is said of what it holds.
pub proof fn law_workspace_item_is_seen_as_it_is(value: WorkspaceItem)
    ensures
        value@.id == value.id,
        value@.name == value.name@,
        value@.interaction == value.interaction,
{
}

/// What is said of the editor is said of what it holds.
pub proof fn law_rename_state_is_seen_as_it_is(value: RenameState)
    ensures
        value@.renaming == value.renaming,
        value@.buffer == value.buffer@,
{
}

/// Items are seen one by one, in their order.
pub proof fn law_items_are_seen_in_order(list: Seq<WorkspaceItem>, k: int)
    requires
        0 <= k < list.len(),
    ensures
        item_views(list).len() == list.len(),
        item_views(list)[k] == list[k]@,
{
}

/// A name that is given is seen with its workspace.
pub proof fn law_given_names_are_seen_as_they_are(id: u64, name: String)
    ensures
        rename_view(Some((id, name))) == Some((id, name@)),
        rename_view(None) is None,
{
}

} // verus!
