//! Where the workspaces of a board stand on the screen.
use vstd::prelude::*;

use crate::canvas::{screen_side, CanvasView, Point};
use crate::geometry::{held, hold, Pos, ScreenRect};
use crate::util::{between, text_tenths, workspace_label_width};
use crate::workspace::{
    frame_rect, label_in, workspace_frame, workspace_label_rect, LABEL_INSET_X, LABEL_INSET_Y,
};

verus! {

/// The measures of a frame, in thousandths of a point; those of a label's width
/// are in tenths.
#[derive(Clone, Copy, Debug, PartialEq, Eq, Structural)]
pub struct VisualStyle {
    pub padding: u32,
    pub title_height: u32,
    pub empty_width: u32,
    pub empty_height: u32,
    pub label_least_tenths: u32,
    pub label_most_tenths: u32,
    pub label_height: u32,
}

impl VisualStyle {
    pub open spec fn valid(self) -> bool {
        self.label_least_tenths <= self.label_most_tenths
    }
}

/// A workspace of the board. One that holds panels is as large as they are
/// together; one that holds none is at its own position.
pub struct BoardWorkspace {
    pub id: u64,
    pub name: String,
    pub bounds: Option<(Point, Point)>,
    pub position: Point,
    pub panel_count: usize,
}

/// A workspace on the screen.
#[derive(Clone, Copy, Debug, PartialEq, Eq, Structural)]
pub struct PlacedWorkspace {
    pub id: u64,
    pub frame: ScreenRect,
    pub label: ScreenRect,
    pub is_active: bool,
    pub is_empty: bool,
    pub panel_count: usize,
}

/// A canvas point on the screen; one that is too far out stands at the edge of
/// what can be told.
pub open spec fn shown_at(view: CanvasView, origin: Point, x: int, y: int) -> Pos {
    Pos { x: held(view.screen_x(origin, x)), y: held(view.screen_y(origin, y)) }
}

pub open spec fn origin_of(canvas: ScreenRect) -> Point {
    Point { x: canvas.min_x as i64, y: canvas.min_y as i64 }
}

impl BoardWorkspace {
    /// The corners of what it holds, with the frame's padding and title.
    pub open spec fn corners(self, style: VisualStyle) -> Option<(int, int, int, int)> {
        match self.bounds {
            Some((low, high)) => Some(
                (
                    low.x - style.padding,
                    low.y - style.padding - style.title_height,
                    high.x + style.padding,
                    high.y + style.padding,
                ),
            ),
            None => None,
        }
    }

    pub open spec fn frame(self, view: CanvasView, canvas: ScreenRect, style: VisualStyle) -> ScreenRect {
        let origin = origin_of(canvas);
        frame_rect(
            match self.corners(style) {
                Some((left, top, right, bottom)) => Some(
                    (shown_at(view, origin, left, top), shown_at(view, origin, right, bottom)),
                ),
                None => None,
            },
            shown_at(view, origin, self.position.x as int, self.position.y as int),
            canvas.min_y,
            style.empty_width,
            style.empty_height,
        )
    }

    /// The label stands in the frame's corner, as wide as its name asks.
    pub open spec fn label(self, frame: ScreenRect, style: VisualStyle) -> ScreenRect {
        let tenths = between(
            text_tenths(self.name@) + 600,
            style.label_least_tenths as int,
            style.label_most_tenths as int,
        );
        label_in(frame, tenths * 100, style.label_height as int)
    }

    pub open spec fn placed(
        self,
        active: Option<u64>,
        view: CanvasView,
        canvas: ScreenRect,
        style: VisualStyle,
    ) -> PlacedWorkspace {
        let frame = self.frame(view, canvas, style);
        PlacedWorkspace {
            id: self.id,
            frame,
            label: self.label(frame, style),
            is_active: active == Some(self.id),
            is_empty: self.bounds is None,
            panel_count: self.panel_count,
        }
    }
}

fn show_at(view: CanvasView, origin: Point, x: i128, y: i128) -> (pos: Pos)
    requires
        -0x2_0000_0000_0000_0000 <= x <= 0x2_0000_0000_0000_0000,
        -0x2_0000_0000_0000_0000 <= y <= 0x2_0000_0000_0000_0000,
    ensures
        pos == shown_at(view, origin, x as int, y as int),
{
    Pos {
        x: hold(screen_side(origin.x, view.pan.x, x, view.zoom)),
        y: hold(screen_side(origin.y, view.pan.y, y, view.zoom)),
    }
}

/// Places one workspace. `canvas` is the part of the screen that the canvas
/// has; no frame starts above it.
pub fn place_workspace(
    workspace: &BoardWorkspace,
    active: Option<u64>,
    view: CanvasView,
    canvas: ScreenRect,
    style: VisualStyle,
) -> (placed: PlacedWorkspace)
    requires
        style.valid(),
    ensures
        placed == workspace.placed(active, view, canvas, style),
{
    let origin = Point { x: canvas.min_x as i64, y: canvas.min_y as i64 };
    let bounds = match workspace.bounds {
        Some((low, high)) => {
            let padding: i128 = style.padding as i128;
            let title: i128 = style.title_height as i128;
            let top: i128 = low.y as i128 - padding - title;
            Some(
                (
                    show_at(view, origin, low.x as i128 - padding, top),
                    show_at(view, origin, high.x as i128 + padding, high.y as i128 + padding),
                ),
            )
        },
        None => None,
    };
    let position = show_at(
        view,
        origin,
        workspace.position.x as i128,
        workspace.position.y as i128,
    );
    let (frame, is_empty) = workspace_frame(
        bounds,
        position,
        canvas.min_y,
        style.empty_width,
        style.empty_height,
    );
    let tenths: u32 = workspace_label_width(
        workspace.name.as_str(),
        style.label_least_tenths,
        style.label_most_tenths,
    );
    let label = workspace_label_rect(frame, tenths as u64 * 100, style.label_height);
    let is_active = match active {
        Some(id) => id == workspace.id,
        None => false,
    };
    PlacedWorkspace {
        id: workspace.id,
        frame,
        label,
        is_active,
        is_empty,
        panel_count: workspace.panel_count,
    }
}

/// Places every workspace of the board, in its order.
pub fn workspace_visuals(
    workspaces: &Vec<BoardWorkspace>,
    active: Option<u64>,
    view: CanvasView,
    canvas: ScreenRect,
    style: VisualStyle,
) -> (placed: Vec<PlacedWorkspace>)
    requires
        style.valid(),
    ensures
        placed@ == workspaces@.map_values(
            |w: BoardWorkspace| w.placed(active, view, canvas, style),
        ),
{
    let ghost goal = workspaces@.map_values(
        |w: BoardWorkspace| w.placed(active, view, canvas, style),
    );
    let mut placed: Vec<PlacedWorkspace> = Vec::new();
    let mut i: usize = 0;
    while i < workspaces.len()
        invariant
            i <= workspaces@.len(),
            placed@.len() == i,
            goal == workspaces@.map_values(
                |w: BoardWorkspace| w.placed(active, view, canvas, style),
            ),
            forall|j: int| 0 <= j < i ==> placed@[j] == #[trigger] goal[j],
            style.valid(),
        decreases workspaces@.len() - i,
    {
        placed.push(place_workspace(&workspaces[i], active, view, canvas, style));
        i = i + 1;
    }
    assert(placed@ =~= goal);
    placed
}

/// No frame starts above the canvas or ends above its start, and every label
/// begins inside its frame's corner.
pub proof fn law_frames_stay_below_the_canvas_top(
    workspace: BoardWorkspace,
    active: Option<u64>,
    view: CanvasView,
    canvas: ScreenRect,
    style: VisualStyle,
)
    requires
        style.valid(),
    ensures
        ({
            let placed = workspace.placed(active, view, canvas, style);
            &&& canvas.min_y <= placed.frame.min_y <= placed.frame.max_y
            &&& placed.label.min_x == held(placed.frame.min_x + LABEL_INSET_X)
            &&& placed.label.min_y == held(placed.frame.min_y + LABEL_INSET_Y)
            &&& placed.label.min_x <= placed.label.max_x
        }),
{
}

/// A workspace stands around what it holds, with the padding on every side and
/// the title on top, where the camera shows it; an empty one stands at its own
/// position.
pub proof fn law_workspaces_stand_around_what_they_hold(
    workspace: BoardWorkspace,
    active: Option<u64>,
    view: CanvasView,
    canvas: ScreenRect,
    style: VisualStyle,
    low: Point,
    high: Point,
)
    ensures
        ({
            let placed = workspace.placed(active, view, canvas, style);
            let origin = Point { x: canvas.min_x as i64, y: canvas.min_y as i64 };
            &&& placed.id == workspace.id && placed.panel_count == workspace.panel_count
            &&& placed.is_active <==> active == Some(workspace.id)
            &&& placed.is_empty <==> workspace.bounds is None
            &&& workspace.bounds == Some((low, high)) ==> {
                let top = view.screen_y(origin, low.y - style.padding - style.title_height);
                let bottom = view.screen_y(origin, high.y + style.padding);
                &&& placed.frame.min_x == held(view.screen_x(origin, low.x - style.padding))
                &&& placed.frame.max_x == held(view.screen_x(origin, high.x + style.padding))
                &&& held(top) >= canvas.min_y ==> placed.frame.min_y == held(top)
                &&& held(top) < canvas.min_y ==> placed.frame.min_y == canvas.min_y
                &&& held(bottom) >= placed.frame.min_y ==> placed.frame.max_y == held(bottom)
            }
            &&& workspace.bounds is None ==> placed.frame.min_x == held(
                view.screen_x(origin, workspace.position.x as int),
            )
            &&& workspace.bounds is None && placed.frame.max_x < i32::MAX ==> placed.frame.max_x
                - placed.frame.min_x == style.empty_width
            &&& workspace.bounds is None && placed.frame.max_y < i32::MAX ==> placed.frame.max_y
                - placed.frame.min_y == style.empty_height
        }),
{
}

/// A label is as wide as its name and sixty points more, within its bounds.
pub proof fn law_labels_are_as_wide_as_their_name(
    workspace: BoardWorkspace,
    frame: ScreenRect,
    style: VisualStyle,
)
    requires
        style.valid(),
    ensures
        ({
            let label = workspace.label(frame, style);
            let wanted = text_tenths(workspace.name@) + 600;
            let width = label.max_x - label.min_x;
            &&& label.max_x < i32::MAX && style.label_least_tenths <= wanted
                <= style.label_most_tenths ==> width == wanted * 100
            &&& label.max_x < i32::MAX && wanted < style.label_least_tenths ==> width
                == style.label_least_tenths * 100
            &&& label.max_x < i32::MAX && wanted > style.label_most_tenths ==> width
                == style.label_most_tenths * 100
            &&& label.max_y < i32::MAX ==> label.max_y - label.min_y == style.label_height
        }),
{
}

} // verus!
