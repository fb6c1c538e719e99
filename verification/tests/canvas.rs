//! The camera over the canvas.
use horizon_ui::canvas::{
    canvas_size_to_screen, canvas_to_screen, screen_to_canvas, Camera, CanvasView, Point, UNIT_ZOOM,
};
use horizon_ui::geometry::ScreenRect;
use horizon_ui::workspace_visuals::{workspace_visuals, BoardWorkspace, VisualStyle};

fn point(x: i64, y: i64) -> Point {
    Point { x, y }
}

fn camera(pan: Point, zoom: u32) -> Camera {
    Camera {
        view: CanvasView { pan, zoom },
        pan_target: None,
    }
}

const ORIGIN: Point = Point {
    x: 210_000,
    y: 46_000,
};

#[test]
fn canvas_scene_transform_matches_canvas_view_mapping() {
    let view = camera(point(48_000, -16_000), 1_500_000).view;
    let mapped = canvas_to_screen(view, ORIGIN, point(320_000, 180_000));
    assert_eq!(mapped, point(210_000 + 48_000 + 480_000, 46_000 - 16_000 + 270_000));
}

#[test]
fn inverse_transform_round_trips_screen_points() {
    let view = camera(point(-72_000, 64_000), 2_000_000).view;
    let canvas = point(410_000, 220_000);
    let screen = canvas_to_screen(view, ORIGIN, canvas);
    assert_eq!(screen_to_canvas(view, ORIGIN, screen), canvas);
}

#[test]
fn zoomed_out_points_come_back_to_within_the_rounding() {
    let view = camera(point(0, 0), 300_000).view;
    for x in [1, 7, 1_001, -333, 123_457] {
        let screen = canvas_to_screen(view, ORIGIN, point(x, -x));
        let back = screen_to_canvas(view, ORIGIN, screen);
        assert!((back.x - x).abs() <= 2 && (back.y + x).abs() <= 2);
    }
}

#[test]
fn sizes_only_scale() {
    let view = camera(point(9_000, 9_000), 500_000).view;
    assert_eq!(canvas_size_to_screen(view, point(300_000, 101)), point(150_000, 51));
}

#[test]
fn zooming_holds_what_is_under_the_pointer_and_ends_a_pan() {
    let mut camera = camera(point(30_000, -20_000), UNIT_ZOOM);
    camera.pan_target = Some(point(0, 0));
    let anchor = point(700_000, 400_000);
    let held = screen_to_canvas(camera.view, ORIGIN, anchor);
    assert!(camera.zoom_canvas_at(ORIGIN, anchor, 1_700_000, 100_000, 4_000_000));
    assert_eq!(camera.view.zoom, 1_700_000);
    assert!(camera.pan_target.is_none());
    assert_eq!(canvas_to_screen(camera.view, ORIGIN, held), anchor);
}

#[test]
fn a_zoom_beyond_its_limit_changes_nothing_twice() {
    let mut camera = camera(point(0, 0), UNIT_ZOOM);
    assert!(camera.zoom_canvas_at(ORIGIN, ORIGIN, 9_000_000, 100_000, 4_000_000));
    assert_eq!(camera.view.zoom, 4_000_000);
    camera.pan_target = Some(point(5, 5));
    let before = camera;
    assert!(!camera.zoom_canvas_at(ORIGIN, ORIGIN, 8_000_000, 100_000, 4_000_000));
    assert_eq!(camera, before);
}

#[test]
fn a_pan_closes_in_and_arrives() {
    let mut camera = camera(point(0, 0), UNIT_ZOOM);
    assert!(!camera.animate_pan(16_000));
    camera.pan_target = Some(point(100_000, -50_000));
    assert!(camera.animate_pan(10_000));
    assert_eq!(camera.view.pan, point(20_000, -10_000));
    assert!(camera.animate_pan(50_000));
    assert_eq!(camera.view.pan, point(100_000, -50_000));
    assert!(camera.pan_target.is_none());
}

#[test]
fn a_pan_that_is_a_point_away_has_arrived() {
    let mut camera = camera(point(0, 0), UNIT_ZOOM);
    camera.pan_target = Some(point(999, 0));
    assert!(camera.animate_pan(0));
    assert_eq!(camera.view.pan, point(999, 0));
    camera.pan_target = Some(point(999 + 1_000, 0));
    assert!(camera.animate_pan(0));
    assert_eq!(camera.view.pan, point(999, 0));
    assert!(camera.pan_target.is_some());
}

#[test]
fn regions_are_brought_to_the_middle_or_to_the_left() {
    let mut camera = camera(point(0, 0), 2_000_000);
    let room = point(1_000_000, 600_000);
    camera.pan_to_canvas_pos_aligned(room, point(100_000, 50_000), point(200_000, 100_000), false);
    assert_eq!(camera.pan_target, Some(point(100_000, 100_000)));
    camera.pan_to_canvas_pos_aligned(room, point(100_000, 50_000), point(200_000, 100_000), true);
    assert_eq!(camera.pan_target, Some(point(-160_000, 100_000)));
    camera.focus_workspace_bounds(room, point(116_000, 106_000), point(284_000, 134_000), 16_000, 40_000, false);
    assert_eq!(camera.pan_target, Some(point(100_000, 100_000)));
    camera.reset_view();
    assert!(camera.pan_target.is_none());
    assert_eq!((camera.view.pan, camera.view.zoom), (point(0, 0), UNIT_ZOOM));
}

fn style() -> VisualStyle {
    VisualStyle {
        padding: 16_000,
        title_height: 44_000,
        empty_width: 304_000,
        empty_height: 154_000,
        label_least_tenths: 1_200,
        label_most_tenths: 3_000,
        label_height: 28_000,
    }
}

#[test]
fn workspaces_stand_around_their_panels_and_below_the_toolbar() {
    let workspaces = vec![
        BoardWorkspace {
            id: 1,
            name: "Alpha".into(),
            bounds: Some((point(100_000, 100_000), point(500_000, 400_000))),
            position: point(0, 0),
            panel_count: 2,
        },
        BoardWorkspace {
            id: 2,
            name: "A name that is too long for its label".into(),
            bounds: None,
            position: point(40_000, -90_000),
            panel_count: 0,
        },
    ];
    let canvas = ScreenRect {
        min_x: 210_000,
        min_y: 46_000,
        max_x: 1_410_000,
        max_y: 846_000,
    };
    let view = camera(point(0, 0), UNIT_ZOOM).view;
    let placed = workspace_visuals(&workspaces, Some(2), view, canvas, style());
    assert_eq!(
        placed[0].frame,
        ScreenRect {
            min_x: 294_000,
            min_y: 86_000,
            max_x: 726_000,
            max_y: 462_000
        }
    );
    // 86 + 4 * 76 + 600 tenths fall short of the least width.
    assert_eq!(
        placed[0].label,
        ScreenRect {
            min_x: 308_000,
            min_y: 98_000,
            max_x: 428_000,
            max_y: 126_000
        }
    );
    assert!(!placed[0].is_active && !placed[0].is_empty);
    assert_eq!(
        placed[1].frame,
        ScreenRect {
            min_x: 250_000,
            min_y: 46_000,
            max_x: 554_000,
            max_y: 200_000
        }
    );
    assert_eq!(placed[1].label.max_x - placed[1].label.min_x, 300_000);
    assert!(placed[1].is_active && placed[1].is_empty);
    assert_eq!(placed[1].panel_count, 0);
}

#[test]
fn what_is_too_far_out_stands_at_the_end_of_the_numbers() {
    let view = camera(point(5, i64::MAX), 2_000_000).view;
    let far = canvas_to_screen(view, point(0, 7), point(i64::MAX, 3));
    assert_eq!(far, point(i64::MAX, i64::MAX));
    let near = camera(point(0, 0), 1).view;
    assert_eq!(screen_to_canvas(near, point(0, 0), point(i64::MIN, -2)), point(i64::MIN, -2_000_000));
    let mut camera = camera(point(0, 0), UNIT_ZOOM);
    camera.pan_to_canvas_pos_aligned(point(100, 100), point(i64::MIN, 0), point(10, 10), true);
    assert_eq!(camera.pan_target.map(|target| target.x), Some(i64::MAX));
    assert!(camera.animate_pan(50_000));
    assert_eq!(camera.view.pan.x, i64::MAX);
}

#[test]
fn far_workspaces_are_held_at_the_edge() {
    let workspaces = vec![BoardWorkspace {
        id: 1,
        name: "Far".into(),
        bounds: Some((point(i64::MIN, 100_000), point(i64::MAX, i64::MAX))),
        position: point(0, 0),
        panel_count: 1,
    }];
    let canvas = ScreenRect {
        min_x: 210_000,
        min_y: 46_000,
        max_x: 1_410_000,
        max_y: 846_000,
    };
    let view = camera(point(0, 0), UNIT_ZOOM).view;
    let placed = workspace_visuals(&workspaces, None, view, canvas, style());
    assert_eq!(
        placed[0].frame,
        ScreenRect {
            min_x: i32::MIN,
            min_y: 86_000,
            max_x: i32::MAX,
            max_y: i32::MAX
        }
    );
    assert_eq!(placed[0].label.min_x, i32::MIN + 14_000);
}
